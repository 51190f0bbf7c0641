use hatchery::api::{Artist, Date, Friend, LovedArtist, LovedTrack, RegisterDate, Track, TrackAttributes};
use hatchery::fetch::{run_script, PageOutcome};
use hatchery::sql::{
    close_db, create_tables, insert_friends, insert_loved_tracks, insert_scrobbles, open_db,
    scrobble_rows, DatabaseLocation,
};

fn track(name: &str, ts: Option<i64>, now_playing: bool) -> Track {
    Track {
        attributes: if now_playing {
            Some(TrackAttributes { now_playing: true })
        } else {
            None
        },
        artist: Artist {
            name: "The Artist".to_string(),
            mbid: None,
        },
        album: None,
        name: name.to_string(),
        image: vec![],
        date: ts.map(|t| Date {
            pretty_string: "whenever".to_string(),
            timestamp: t,
        }),
        url: "http://example.com/t".to_string(),
        mbid: None,
    }
}

fn count(conn: &rusqlite::Connection, table: &str) -> i64 {
    conn.query_row(&format!("SELECT COUNT(*) FROM {}", table), (), |row| row.get(0))
        .unwrap()
}

#[test]
fn now_playing_rows_are_never_prepared() {
    let rows = scrobble_rows(vec![
        track("a", Some(1), false),
        track("playing", None, true),
        track("b", Some(2), false),
    ]);
    assert_eq!(rows.len(), 2);
    assert_eq!(rows[0].name, "a");
    assert_eq!(rows[1].name, "b");
}

#[test]
fn create_tables_is_idempotent() {
    let mut conn = open_db(DatabaseLocation::Memory).unwrap();
    create_tables(&mut conn).unwrap();
    insert_scrobbles(&mut conn, vec![track("a", Some(1), false)]).unwrap();
    assert_eq!(count(&conn, "scrobbles"), 1);
    // recreating drops the old contents and leaves empty tables again
    create_tables(&mut conn).unwrap();
    assert_eq!(count(&conn, "scrobbles"), 0);
    close_db(conn).unwrap();
}

#[test]
fn loads_all_three_entity_kinds() {
    let mut conn = open_db(DatabaseLocation::Memory).unwrap();
    create_tables(&mut conn).unwrap();

    insert_scrobbles(
        &mut conn,
        vec![track("a", Some(1), false), track("b", Some(2), false)],
    )
    .unwrap();

    insert_loved_tracks(
        &mut conn,
        vec![LovedTrack {
            attributes: None,
            artist: LovedArtist {
                name: "The Artist".to_string(),
                mbid: Some("mb".to_string()),
            },
            name: "loved one".to_string(),
            image: vec![],
            date: None,
            url: "http://example.com/l".to_string(),
            mbid: None,
        }],
    )
    .unwrap();

    insert_friends(
        &mut conn,
        vec![Friend {
            name: "bob".to_string(),
            image: vec![],
            country: "Nowhere".to_string(),
            url: "http://example.com/u/bob".to_string(),
            subscriber: false,
            real_name: None,
            registered: RegisterDate {
                pretty_string: "2009-01-01 00:00".to_string(),
                timestamp: 1230768000,
            },
        }],
    )
    .unwrap();

    assert_eq!(count(&conn, "scrobbles"), 2);
    assert_eq!(count(&conn, "loved_tracks"), 1);
    assert_eq!(count(&conn, "friends"), 1);

    let stored: (String, Option<String>, i64) = conn
        .query_row(
            "SELECT name, mbid, timestamp FROM scrobbles WHERE name = 'b'",
            (),
            |row| Ok((row.get(0)?, row.get(1)?, row.get(2)?)),
        )
        .unwrap();
    assert_eq!(stored, ("b".to_string(), None, 2));
    close_db(conn).unwrap();
}

#[test]
fn two_pages_with_one_in_flight_track_persist_all_but_one() {
    // a two-page mock: the first page carries two hundred tracks, the
    // second fifty, one of which is still playing
    let page1: Vec<Track> = (0..200).map(|i| track(&format!("t{}", i), Some(i), false)).collect();
    let mut page2: Vec<Track> =
        (200..249).map(|i| track(&format!("t{}", i), Some(i), false)).collect();
    page2.push(track("in flight", None, true));

    let script = vec![
        PageOutcome::Success { records: page1, total_pages: 2 },
        PageOutcome::Success { records: page2, total_pages: 2 },
    ];
    let fetched = run_script(script).unwrap();
    assert_eq!(fetched.len(), 250);

    let mut conn = open_db(DatabaseLocation::Memory).unwrap();
    create_tables(&mut conn).unwrap();
    insert_scrobbles(&mut conn, fetched).unwrap();
    assert_eq!(count(&conn, "scrobbles"), 249);
    close_db(conn).unwrap();
}

#[test]
fn open_error_on_impossible_path() {
    let result = open_db(DatabaseLocation::Disk(
        "/nonexistent_hatchery_dir/sub/x.db".to_string(),
    ));
    assert_eq!(result.err(), Some(hatchery::sql::SinkError::Open));
}

#[test]
fn load_error_without_schema() {
    let mut conn = open_db(DatabaseLocation::Memory).unwrap();
    // no create_tables: the insert's transaction cannot be written
    let result = insert_scrobbles(&mut conn, vec![track("a", Some(1), false)]);
    assert_eq!(result, Err(hatchery::sql::SinkError::Load));
}

#[test]
fn error_messages_name_the_operation() {
    assert_eq!(
        hatchery::sql::SinkError::Schema.message(),
        "Failed to create tables."
    );
    assert_eq!(
        hatchery::api::LastFMError::AuthError.message(),
        "Failed to authenticate with Last.fm."
    );
    assert_eq!(
        hatchery::api::LastFMError::RequestError.message(),
        "Failed to fetch scrobbles."
    );
    assert_eq!(hatchery::fetch::FetchError.message(), "Failed to fetch scrobbles.");
}
