//! The persistence sink: idempotently (re)creates the destination schema
//! and bulk-loads normalized records, one transaction per entity kind.
//! Every statement is parameterized, never string-built, and in-flight
//! ("now playing") records are filtered out before insertion. The row
//! preparation is verified; the database calls themselves are trusted
//! wrappers around `rusqlite`.

use vstd::prelude::*;
use crate::api::{completed_loved_p, completed_track_p, Friend, LovedTrack, Track};

verus! {

/// Where the destination database lives.
pub enum DatabaseLocation {
    Memory,
    Disk(String),
}

/// A failure of the persistence sink, by the operation that failed.
#[derive(Debug, Clone, Copy, PartialEq, Eq, Structural)]
pub enum SinkError {
    /// The destination could not be opened.
    Open,
    /// The destination schema could not be (re)created.
    Schema,
    /// A batch could not be loaded; its transaction was rolled back.
    Load,
    /// The destination could not be closed.
    Close,
}

impl SinkError {
    /// A human-readable description of the failure.
    pub fn message(&self) -> (msg: &'static str)
        ensures
            self is Open ==> msg@ == "Failed to open the database."@,
            self is Schema ==> msg@ == "Failed to create tables."@,
            self is Load ==> msg@ == "Failed to insert a batch."@,
            self is Close ==> msg@ == "Failed to close the database."@,
    {
        match self {
            SinkError::Open => "Failed to open the database.",
            SinkError::Schema => "Failed to create tables.",
            SinkError::Load => "Failed to insert a batch.",
            SinkError::Close => "Failed to close the database.",
        }
    }
}

#[verifier::external_type_specification]
#[verifier::external_body]
pub struct ExConnection(rusqlite::Connection);

#[verifier::external_type_specification]
#[verifier::external_body]
pub struct ExTransaction<'conn>(rusqlite::Transaction<'conn>);

#[verifier::external_type_specification]
#[verifier::external_body]
pub struct ExSqlError(rusqlite::Error);

/// Relies on `rusqlite::Connection::open_in_memory`: opens a fresh
/// in-memory database.
#[verifier::external_body]
fn open_memory_connection() -> Result<rusqlite::Connection, rusqlite::Error> {
    rusqlite::Connection::open_in_memory()
}

/// Relies on `rusqlite::Connection::open`: opens (creating if absent) the
/// database file at the given path.
#[verifier::external_body]
fn open_path_connection(path: &str) -> Result<rusqlite::Connection, rusqlite::Error> {
    rusqlite::Connection::open(path)
}

/// Relies on `rusqlite::Connection::close`: flushes and closes the
/// connection; on failure the still-open connection comes back with the
/// error.
#[verifier::external_body]
fn close_connection(conn: rusqlite::Connection) -> Result<
    (),
    (rusqlite::Connection, rusqlite::Error),
> {
    conn.close()
}

/// Relies on `rusqlite::Connection::execute`: runs one parameterless SQL
/// statement.
#[verifier::external_body]
fn execute_sql(conn: &mut rusqlite::Connection, sql: &str) -> Result<usize, rusqlite::Error> {
    conn.execute(sql, ())
}

/// Relies on `rusqlite::Connection::transaction`: begins a transaction
/// that rolls back unless committed.
#[verifier::external_body]
fn begin_transaction<'a>(conn: &'a mut rusqlite::Connection) -> Result<
    rusqlite::Transaction<'a>,
    rusqlite::Error,
> {
    conn.transaction()
}

/// Relies on `rusqlite::Transaction::commit`: commits the transaction.
#[verifier::external_body]
fn commit_transaction(tx: rusqlite::Transaction<'_>) -> Result<(), rusqlite::Error> {
    tx.commit()
}

/// One row of the `scrobbles` table, ready to bind.
#[derive(Debug, Clone)]
pub struct ScrobbleRow {
    pub name: String,
    pub mbid: Option<String>,
    pub artist: String,
    pub artist_mbid: Option<String>,
    pub album: Option<String>,
    pub album_mbid: Option<String>,
    pub timestamp: Option<i64>,
}

/// One row of the `loved_tracks` table, ready to bind.
#[derive(Debug, Clone)]
pub struct LovedRow {
    pub name: String,
    pub mbid: Option<String>,
    pub artist: String,
    pub artist_mbid: Option<String>,
}

/// One row of the `friends` table, ready to bind.
#[derive(Debug, Clone)]
pub struct FriendRow {
    pub name: String,
    pub real_name: Option<String>,
    pub country: String,
    pub subscriber: bool,
    pub registered: i64,
}

/// Relies on `rusqlite::Connection::execute` through the transaction:
/// runs the given statement with the row's seven fields bound in order.
#[verifier::external_body]
fn execute_insert_scrobble(
    tx: &rusqlite::Transaction<'_>,
    sql: &str,
    row: &ScrobbleRow,
) -> Result<usize, rusqlite::Error> {
    tx.execute(
        sql,
        (
            &row.name,
            &row.mbid,
            &row.artist,
            &row.artist_mbid,
            &row.album,
            &row.album_mbid,
            &row.timestamp,
        ),
    )
}

/// Relies on `rusqlite::Connection::execute` through the transaction:
/// runs the given statement with the row's four fields bound in order.
#[verifier::external_body]
fn execute_insert_loved(
    tx: &rusqlite::Transaction<'_>,
    sql: &str,
    row: &LovedRow,
) -> Result<usize, rusqlite::Error> {
    tx.execute(sql, (&row.name, &row.mbid, &row.artist, &row.artist_mbid))
}

/// Relies on `rusqlite::Connection::execute` through the transaction:
/// runs the given statement with the row's five fields bound in order.
#[verifier::external_body]
fn execute_insert_friend(
    tx: &rusqlite::Transaction<'_>,
    sql: &str,
    row: &FriendRow,
) -> Result<usize, rusqlite::Error> {
    tx.execute(
        sql,
        (&row.name, &row.real_name, &row.country, &row.subscriber, &row.registered),
    )
}

/// Opens the destination database.
pub fn open_db(location: DatabaseLocation) -> (r: Result<rusqlite::Connection, SinkError>)
    ensures
        r is Err ==> r->Err_0 == SinkError::Open,
{
    let opened = match location {
        DatabaseLocation::Memory => open_memory_connection(),
        DatabaseLocation::Disk(path) => open_path_connection(path.as_str()),
    };
    match opened {
        Ok(conn) => Ok(conn),
        Err(_) => Err(SinkError::Open),
    }
}

/// Closes the destination database. On failure the still-open connection
/// is handed back with the error, so the caller may retry or keep using
/// it.
pub fn close_db(conn: rusqlite::Connection) -> (r: Result<
    (),
    (rusqlite::Connection, SinkError),
>)
    ensures
        r is Err ==> r->Err_0.1 == SinkError::Close,
{
    match close_connection(conn) {
        Ok(()) => Ok(()),
        Err((open_conn, _)) => Err((open_conn, SinkError::Close)),
    }
}

/// Drops and recreates the three destination tables, so a load always
/// starts from a known schema. Idempotent: running it twice leaves the
/// same empty tables.
pub fn create_tables(conn: &mut rusqlite::Connection) -> (r: Result<(), SinkError>)
    ensures
        r is Err ==> r->Err_0 == SinkError::Schema,
{
    let statements = [
        "DROP TABLE IF EXISTS scrobbles",
        "CREATE TABLE scrobbles (
            id             INTEGER PRIMARY KEY,
            name           TEXT NOT NULL,
            mbid           TEXT,
            artist         TEXT NOT NULL,
            artist_mbid    TEXT,
            album          TEXT,
            album_mbid     TEXT,
            timestamp      DATETIME
        )",
        "DROP TABLE IF EXISTS loved_tracks",
        "CREATE TABLE loved_tracks (
            id             INTEGER PRIMARY KEY,
            name           TEXT NOT NULL,
            mbid           TEXT,
            artist         TEXT NOT NULL,
            artist_mbid    TEXT
        )",
        "DROP TABLE IF EXISTS friends",
        "CREATE TABLE friends (
            id             INTEGER PRIMARY KEY,
            name           TEXT NOT NULL,
            real_name      TEXT,
            country        TEXT NOT NULL,
            subscriber     BOOLEAN,
            registered     DATETIME
        )",
    ];
    let mut i: usize = 0;
    while i < 6
        invariant
            i <= 6,
        decreases 6 - i,
    {
        if execute_sql(conn, statements[i]).is_err() {
            return Err(SinkError::Schema);
        }
        i = i + 1;
    }
    Ok(())
}

/// The row a completed play record maps to.
pub open spec fn scrobble_row_of(t: Track) -> ScrobbleRow {
    ScrobbleRow {
        name: t.name,
        mbid: t.mbid,
        artist: t.artist.name,
        artist_mbid: t.artist.mbid,
        album: match t.album {
            Option::Some(a) => Option::Some(a.name),
            Option::None => Option::None,
        },
        album_mbid: match t.album {
            Option::Some(a) => a.mbid,
            Option::None => Option::None,
        },
        timestamp: match t.date {
            Option::Some(d) => Option::Some(d.timestamp),
            Option::None => Option::None,
        },
    }
}

/// The rows a batch of play records maps to: the completed ones, in
/// order; in-flight records contribute nothing.
pub open spec fn scrobble_rows_of(ts: Seq<Track>) -> Seq<ScrobbleRow> {
    ts.filter(completed_track_p()).map_values(|t: Track| scrobble_row_of(t))
}

/// Prepares the rows to insert for a batch of play records, excluding
/// in-flight ("now playing") records.
pub fn scrobble_rows(tracks: Vec<Track>) -> (rows: Vec<ScrobbleRow>)
    ensures
        rows@ == scrobble_rows_of(tracks@),
{
    let ghost track_views = tracks@;
    let mut rows: Vec<ScrobbleRow> = Vec::new();
    let mut rest = tracks;
    let mut i: usize = 0;
    let n = rest.len();
    proof {
        assert(track_views.take(0) =~= Seq::<Track>::empty());
        reveal(Seq::filter);
        assert(rows@ =~= scrobble_rows_of(track_views.take(0)));
    }
    while i < n
        invariant
            i <= n,
            track_views == tracks@,
            n == track_views.len(),
            rest@ =~= track_views.skip(i as int),
            rows@ == scrobble_rows_of(track_views.take(i as int)),
        decreases n - i,
    {
        let t = rest.remove(0);
        proof {
            reveal(Seq::filter);
            assert(t == track_views[i as int]);
            assert(rest@ =~= track_views.skip(i + 1));
            assert(track_views.take(i + 1).drop_last() =~= track_views.take(i as int));
            assert(track_views.take(i + 1).last() == track_views[i as int]);
        }
        if !t.now_playing() {
            let row = ScrobbleRow {
                name: t.name,
                mbid: t.mbid,
                artist: t.artist.name,
                artist_mbid: t.artist.mbid,
                album: match &t.album {
                    Some(a) => Some(a.name.clone()),
                    None => None,
                },
                album_mbid: match t.album {
                    Some(a) => a.mbid,
                    None => None,
                },
                timestamp: match t.date {
                    Some(d) => Some(d.timestamp),
                    None => None,
                },
            };
            rows.push(row);
            proof {
                reveal(Seq::filter);
                assert(track_views.take(i + 1).filter(completed_track_p()) =~= track_views.take(
                    i as int,
                ).filter(completed_track_p()).push(track_views[i as int]));
                assert(rows@ =~= scrobble_rows_of(track_views.take(i + 1)));
            }
        } else {
            proof {
                reveal(Seq::filter);
                assert(track_views.take(i + 1).filter(completed_track_p()) =~= track_views.take(
                    i as int,
                ).filter(completed_track_p()));
            }
        }
        i = i + 1;
    }
    proof {
        assert(track_views.take(n as int) =~= track_views);
    }
    rows
}

/// The row a loved track maps to.
pub open spec fn loved_row_of(t: LovedTrack) -> LovedRow {
    LovedRow { name: t.name, mbid: t.mbid, artist: t.artist.name, artist_mbid: t.artist.mbid }
}

/// The rows a batch of loved tracks maps to, in-flight records excluded.
pub open spec fn loved_rows_of(ts: Seq<LovedTrack>) -> Seq<LovedRow> {
    ts.filter(completed_loved_p()).map_values(|t: LovedTrack| loved_row_of(t))
}

/// Prepares the rows to insert for a batch of loved tracks, excluding
/// in-flight records.
pub fn loved_rows(tracks: Vec<LovedTrack>) -> (rows: Vec<LovedRow>)
    ensures
        rows@ == loved_rows_of(tracks@),
{
    let ghost track_views = tracks@;
    let mut rows: Vec<LovedRow> = Vec::new();
    let mut rest = tracks;
    let mut i: usize = 0;
    let n = rest.len();
    proof {
        assert(track_views.take(0) =~= Seq::<LovedTrack>::empty());
        reveal(Seq::filter);
        assert(rows@ =~= loved_rows_of(track_views.take(0)));
    }
    while i < n
        invariant
            i <= n,
            track_views == tracks@,
            n == track_views.len(),
            rest@ =~= track_views.skip(i as int),
            rows@ == loved_rows_of(track_views.take(i as int)),
        decreases n - i,
    {
        let t = rest.remove(0);
        proof {
            reveal(Seq::filter);
            assert(t == track_views[i as int]);
            assert(rest@ =~= track_views.skip(i + 1));
            assert(track_views.take(i + 1).drop_last() =~= track_views.take(i as int));
            assert(track_views.take(i + 1).last() == track_views[i as int]);
        }
        if !t.now_playing() {
            let row = LovedRow {
                name: t.name,
                mbid: t.mbid,
                artist: t.artist.name,
                artist_mbid: t.artist.mbid,
            };
            rows.push(row);
            proof {
                reveal(Seq::filter);
                assert(track_views.take(i + 1).filter(completed_loved_p()) =~= track_views.take(
                    i as int,
                ).filter(completed_loved_p()).push(track_views[i as int]));
                assert(rows@ =~= loved_rows_of(track_views.take(i + 1)));
            }
        } else {
            proof {
                reveal(Seq::filter);
                assert(track_views.take(i + 1).filter(completed_loved_p()) =~= track_views.take(
                    i as int,
                ).filter(completed_loved_p()));
            }
        }
        i = i + 1;
    }
    proof {
        assert(track_views.take(n as int) =~= track_views);
    }
    rows
}

/// The row a friend record maps to; the canonical timestamp stands for
/// the registration date.
pub open spec fn friend_row_of(f: Friend) -> FriendRow {
    FriendRow {
        name: f.name,
        real_name: f.real_name,
        country: f.country,
        subscriber: f.subscriber,
        registered: f.registered.timestamp,
    }
}

/// The rows a batch of friend records maps to, one per friend, in order.
pub open spec fn friend_rows_of(fs: Seq<Friend>) -> Seq<FriendRow> {
    fs.map_values(|f: Friend| friend_row_of(f))
}

/// Prepares the rows to insert for a batch of friend records.
pub fn friend_rows(friends: Vec<Friend>) -> (rows: Vec<FriendRow>)
    ensures
        rows@ == friend_rows_of(friends@),
{
    let ghost friend_views = friends@;
    let mut rows: Vec<FriendRow> = Vec::new();
    let mut rest = friends;
    let mut i: usize = 0;
    let n = rest.len();
    while i < n
        invariant
            i <= n,
            friend_views == friends@,
            n == friend_views.len(),
            rest@ =~= friend_views.skip(i as int),
            rows@ =~= friend_rows_of(friend_views.take(i as int)),
        decreases n - i,
    {
        let f = rest.remove(0);
        proof {
            assert(f == friend_views[i as int]);
            assert(rest@ =~= friend_views.skip(i + 1));
            assert(friend_views.take(i + 1) =~= friend_views.take(i as int).push(
                friend_views[i as int],
            ));
        }
        let row = FriendRow {
            name: f.name,
            real_name: f.real_name,
            country: f.country,
            subscriber: f.subscriber,
            registered: f.registered.timestamp,
        };
        rows.push(row);
        proof {
            assert(rows@ =~= friend_rows_of(friend_views.take(i + 1)));
        }
        i = i + 1;
    }
    proof {
        assert(friend_views.take(n as int) =~= friend_views);
    }
    rows
}

/// Now-playing exclusion: an in-flight play record contributes no row,
/// wherever it stands in a batch — appending one to any batch leaves the
/// prepared rows unchanged.
pub proof fn lemma_now_playing_excluded(ts: Seq<Track>, t: Track)
    requires
        t.spec_now_playing(),
    ensures
        scrobble_rows_of(ts.push(t)) == scrobble_rows_of(ts),
{
    reveal(Seq::filter);
    assert(ts.push(t).drop_last() =~= ts);
    assert(ts.push(t).filter(completed_track_p()) =~= ts.filter(completed_track_p()));
}

/// Now-playing exclusion for loved tracks: the same, row for row.
pub proof fn lemma_now_playing_excluded_loved(ts: Seq<LovedTrack>, t: LovedTrack)
    requires
        t.spec_now_playing(),
    ensures
        loved_rows_of(ts.push(t)) == loved_rows_of(ts),
{
    reveal(Seq::filter);
    assert(ts.push(t).drop_last() =~= ts);
    assert(ts.push(t).filter(completed_loved_p()) =~= ts.filter(completed_loved_p()));
}

/// Loads a batch of play records into `scrobbles`, as one all-or-nothing
/// transaction of parameterized statements; in-flight records are
/// excluded before insertion. On any database failure nothing is kept
/// and the load error is reported.
pub fn insert_scrobbles(conn: &mut rusqlite::Connection, scrobbles: Vec<Track>) -> (r: Result<
    (),
    SinkError,
>)
    ensures
        r is Err ==> r->Err_0 == SinkError::Load,
{
    let rows = scrobble_rows(scrobbles);
    let tx = match begin_transaction(conn) {
        Ok(tx) => tx,
        Err(_) => {
            return Err(SinkError::Load);
        },
    };
    let sql = "INSERT INTO scrobbles
            (name, mbid, artist, artist_mbid, album, album_mbid, timestamp)
            VALUES (?1, ?2, ?3, ?4, ?5, ?6, ?7)";
    let mut i: usize = 0;
    let n = rows.len();
    while i < n
        invariant
            i <= n,
            n == rows@.len(),
        decreases n - i,
    {
        if execute_insert_scrobble(&tx, sql, &rows[i]).is_err() {
            return Err(SinkError::Load);
        }
        i = i + 1;
    }
    match commit_transaction(tx) {
        Ok(()) => Ok(()),
        Err(_) => Err(SinkError::Load),
    }
}

/// Loads a batch of loved tracks into `loved_tracks`, as one
/// all-or-nothing transaction; in-flight records are excluded.
pub fn insert_loved_tracks(
    conn: &mut rusqlite::Connection,
    loved_tracks: Vec<LovedTrack>,
) -> (r: Result<(), SinkError>)
    ensures
        r is Err ==> r->Err_0 == SinkError::Load,
{
    let rows = loved_rows(loved_tracks);
    let tx = match begin_transaction(conn) {
        Ok(tx) => tx,
        Err(_) => {
            return Err(SinkError::Load);
        },
    };
    let sql = "INSERT INTO loved_tracks
            (name, mbid, artist, artist_mbid)
            VALUES (?1, ?2, ?3, ?4)";
    let mut i: usize = 0;
    let n = rows.len();
    while i < n
        invariant
            i <= n,
            n == rows@.len(),
        decreases n - i,
    {
        if execute_insert_loved(&tx, sql, &rows[i]).is_err() {
            return Err(SinkError::Load);
        }
        i = i + 1;
    }
    match commit_transaction(tx) {
        Ok(()) => Ok(()),
        Err(_) => Err(SinkError::Load),
    }
}

/// Loads a batch of friend records into `friends`, as one all-or-nothing
/// transaction.
pub fn insert_friends(conn: &mut rusqlite::Connection, friends: Vec<Friend>) -> (r: Result<
    (),
    SinkError,
>)
    ensures
        r is Err ==> r->Err_0 == SinkError::Load,
{
    let rows = friend_rows(friends);
    let tx = match begin_transaction(conn) {
        Ok(tx) => tx,
        Err(_) => {
            return Err(SinkError::Load);
        },
    };
    let sql = "INSERT INTO friends
            (name, real_name, country, subscriber, registered)
            VALUES (?1, ?2, ?3, ?4, ?5)";
    let mut i: usize = 0;
    let n = rows.len();
    while i < n
        invariant
            i <= n,
            n == rows@.len(),
        decreases n - i,
    {
        if execute_insert_friend(&tx, sql, &rows[i]).is_err() {
            return Err(SinkError::Load);
        }
        i = i + 1;
    }
    match commit_transaction(tx) {
        Ok(()) => Ok(()),
        Err(_) => Err(SinkError::Load),
    }
}

} // verus!
