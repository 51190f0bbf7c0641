//! The record model, errors, and client state for the web API: credential
//! handling, the canonical signed query for each call, and the session
//! rule for authentication. The network transport that carries the
//! queries lives outside the library and hands results back as plain
//! values.

use vstd::prelude::*;
use crate::sign::{params_view, sig_of, signature};

verus! {

/// The two fatal failures of a client run: authentication that yielded no
/// session token, and a page request whose retry budget was exhausted.
#[derive(Debug, Clone, Copy, PartialEq, Eq, Structural)]
pub enum LastFMError {
    AuthError,
    RequestError,
}

impl LastFMError {
    /// A human-readable description of the failure.
    pub fn message(&self) -> (msg: &'static str)
        ensures
            self is AuthError ==> msg@ == "Failed to authenticate with Last.fm."@,
            self is RequestError ==> msg@ == "Failed to fetch scrobbles."@,
    {
        match self {
            LastFMError::AuthError => "Failed to authenticate with Last.fm.",
            LastFMError::RequestError => "Failed to fetch scrobbles.",
        }
    }
}

/// A point in time, in its human-readable form and as the authoritative
/// absolute timestamp in seconds since the epoch. The timestamp is the
/// canonical value for storage and sorting.
#[derive(Debug, Clone)]
pub struct Date {
    pub pretty_string: String,
    pub timestamp: i64,
}

/// The size class of an image variant.
#[derive(Debug, Clone, Copy, PartialEq, Eq, Structural)]
pub enum ImageSize {
    Small,
    Medium,
    Large,
    ExtraLarge,
}

/// One image variant; an empty URL in the response means the URL is absent.
#[derive(Debug, Clone)]
pub struct Image {
    pub url: Option<String>,
    pub size: ImageSize,
}

#[derive(Debug, Clone)]
pub struct Artist {
    pub name: String,
    pub mbid: Option<String>,
}

#[derive(Debug, Clone)]
pub struct Album {
    pub name: String,
    pub mbid: Option<String>,
}

/// The optional attribute block of a track; present with `now_playing`
/// true on an in-flight play that is not yet a completed scrobble.
#[derive(Debug, Clone, Copy, PartialEq, Eq, Structural)]
pub struct TrackAttributes {
    pub now_playing: bool,
}

/// One play record from the listening history.
#[derive(Debug, Clone)]
pub struct Track {
    pub attributes: Option<TrackAttributes>,
    pub artist: Artist,
    pub album: Option<Album>,
    pub name: String,
    pub image: Vec<Image>,
    pub date: Option<Date>,
    pub url: String,
    pub mbid: Option<String>,
}

impl Track {
    /// Whether this record is an in-flight play rather than a completed
    /// scrobble.
    pub open spec fn spec_now_playing(self) -> bool {
        match self.attributes {
            Some(a) => a.now_playing,
            None => false,
        }
    }

    pub fn now_playing(&self) -> (b: bool)
        ensures
            b == self.spec_now_playing(),
    {
        match &self.attributes {
            Some(a) => a.now_playing,
            None => false,
        }
    }
}

/// The pagination metadata block of one response page.
#[derive(Debug, Clone)]
pub struct RequestAttributes {
    pub page: usize,
    pub per_page: usize,
    pub total: usize,
    pub total_pages: usize,
    pub username: String,
}

/// One page of the listening history.
#[derive(Debug, Clone)]
pub struct RecentTracks {
    pub attributes: RequestAttributes,
    pub tracks: Vec<Track>,
}

#[derive(Debug, Clone)]
pub struct LovedArtist {
    pub name: String,
    pub mbid: Option<String>,
}

/// One loved track; the same shape as a play record, minus the album.
#[derive(Debug, Clone)]
pub struct LovedTrack {
    pub attributes: Option<TrackAttributes>,
    pub artist: LovedArtist,
    pub name: String,
    pub image: Vec<Image>,
    pub date: Option<Date>,
    pub url: String,
    pub mbid: Option<String>,
}

impl LovedTrack {
    /// Whether this record is an in-flight play rather than a completed
    /// scrobble.
    pub open spec fn spec_now_playing(self) -> bool {
        match self.attributes {
            Some(a) => a.now_playing,
            None => false,
        }
    }

    pub fn now_playing(&self) -> (b: bool)
        ensures
            b == self.spec_now_playing(),
    {
        match &self.attributes {
            Some(a) => a.now_playing,
            None => false,
        }
    }
}

/// Keeps a play record: true exactly of completed scrobbles, false of
/// in-flight ("now playing") records.
pub open spec fn completed_track_p() -> spec_fn(Track) -> bool {
    |t: Track| !t.spec_now_playing()
}

/// Keeps a loved track: true exactly of completed records.
pub open spec fn completed_loved_p() -> spec_fn(LovedTrack) -> bool {
    |t: LovedTrack| !t.spec_now_playing()
}

/// The completed records of a batch, in order; in-flight ("now playing")
/// records are left out. Persisted and exported output is built from
/// this subset alone.
pub fn completed_tracks(tracks: Vec<Track>) -> (r: Vec<Track>)
    ensures
        r@ == tracks@.filter(completed_track_p()),
{
    let ghost track_views = tracks@;
    let mut kept: Vec<Track> = Vec::new();
    let mut rest = tracks;
    let mut i: usize = 0;
    let n = rest.len();
    proof {
        assert(track_views.take(0) =~= Seq::<Track>::empty());
        reveal(Seq::filter);
        assert(kept@ =~= track_views.take(0).filter(completed_track_p()));
    }
    while i < n
        invariant
            i <= n,
            track_views == tracks@,
            n == track_views.len(),
            rest@ =~= track_views.skip(i as int),
            kept@ == track_views.take(i as int).filter(completed_track_p()),
        decreases n - i,
    {
        let t = rest.remove(0);
        proof {
            reveal(Seq::filter);
            assert(t == track_views[i as int]);
            assert(rest@ =~= track_views.skip(i + 1));
            assert(track_views.take(i + 1).drop_last() =~= track_views.take(i as int));
            assert(track_views.take(i + 1).last() == track_views[i as int]);
        }
        if !t.now_playing() {
            kept.push(t);
        }
        proof {
            reveal(Seq::filter);
            assert(kept@ =~= track_views.take(i + 1).filter(completed_track_p()));
        }
        i = i + 1;
    }
    proof {
        assert(track_views.take(n as int) =~= track_views);
    }
    kept
}

/// The completed loved tracks of a batch, as `completed_tracks` does.
pub fn completed_loved_tracks(tracks: Vec<LovedTrack>) -> (r: Vec<LovedTrack>)
    ensures
        r@ == tracks@.filter(completed_loved_p()),
{
    let ghost track_views = tracks@;
    let mut kept: Vec<LovedTrack> = Vec::new();
    let mut rest = tracks;
    let mut i: usize = 0;
    let n = rest.len();
    proof {
        assert(track_views.take(0) =~= Seq::<LovedTrack>::empty());
        reveal(Seq::filter);
        assert(kept@ =~= track_views.take(0).filter(completed_loved_p()));
    }
    while i < n
        invariant
            i <= n,
            track_views == tracks@,
            n == track_views.len(),
            rest@ =~= track_views.skip(i as int),
            kept@ == track_views.take(i as int).filter(completed_loved_p()),
        decreases n - i,
    {
        let t = rest.remove(0);
        proof {
            reveal(Seq::filter);
            assert(t == track_views[i as int]);
            assert(rest@ =~= track_views.skip(i + 1));
            assert(track_views.take(i + 1).drop_last() =~= track_views.take(i as int));
            assert(track_views.take(i + 1).last() == track_views[i as int]);
        }
        if !t.now_playing() {
            kept.push(t);
        }
        proof {
            reveal(Seq::filter);
            assert(kept@ =~= track_views.take(i + 1).filter(completed_loved_p()));
        }
        i = i + 1;
    }
    proof {
        assert(track_views.take(n as int) =~= track_views);
    }
    kept
}

/// One page of the loved-track list.
#[derive(Debug, Clone)]
pub struct LovedTracks {
    pub attributes: RequestAttributes,
    pub tracks: Vec<LovedTrack>,
}

/// The registration date of a friend.
#[derive(Debug, Clone)]
pub struct RegisterDate {
    pub pretty_string: String,
    pub timestamp: i64,
}

/// One friend of the queried user. The subscriber flag arrives as a
/// loosely-typed truthy value and is coerced during normalization.
#[derive(Debug, Clone)]
pub struct Friend {
    pub name: String,
    pub image: Vec<Image>,
    pub country: String,
    pub url: String,
    pub subscriber: bool,
    pub real_name: Option<String>,
    pub registered: RegisterDate,
}

/// One page of the friends list.
#[derive(Debug, Clone)]
pub struct Friends {
    pub attributes: RequestAttributes,
    pub friends: Vec<Friend>,
}

/// The client's credentials and session: the key and secret sign every
/// request; the session token is set by a successful authentication.
/// The secret itself is never placed in a query.
pub struct LastFM {
    pub endpoint: String,
    pub api_key: String,
    pub api_secret: String,
    pub session_key: Option<String>,
}

/// The full parameter set of a signed call: the caller's parameters, the
/// method name and the API key, then the signature over exactly those,
/// and the response format marker (which is never signed).
pub open spec fn built_query(
    q: Seq<(Seq<char>, Seq<char>)>,
    method: Seq<char>,
    key: Seq<char>,
    secret: Seq<char>,
) -> Seq<(Seq<char>, Seq<char>)> {
    let signed = q.push(("method"@, method)).push(("api_key"@, key));
    signed.push(("api_sig"@, sig_of(signed, secret))).push(("format"@, "json"@))
}

impl LastFM {
    pub fn new(api_key: &str, api_secret: &str) -> (client: Self)
        ensures
            client.endpoint@ == "http://ws.audioscrobbler.com/2.0"@,
            client.api_key@ == api_key@,
            client.api_secret@ == api_secret@,
            client.session_key is None,
    {
        LastFM {
            endpoint: String::from_str("http://ws.audioscrobbler.com/2.0"),
            api_key: api_key.to_owned(),
            api_secret: api_secret.to_owned(),
            session_key: None,
        }
    }

    /// The deterministic signature of a parameter set under this client's
    /// secret.
    pub fn get_signature(&self, query: Vec<(String, String)>) -> (sig: String)
        ensures
            sig@ == sig_of(params_view(query@), self.api_secret@),
            sig@.len() == 32,
    {
        signature(&query, self.api_secret.as_str())
    }

    /// Completes a parameter set into the signed query of one call.
    pub fn build_query(&self, method: &str, query: Vec<(String, String)>) -> (full: Vec<
        (String, String),
    >)
        ensures
            params_view(full@) == built_query(
                params_view(query@),
                method@,
                self.api_key@,
                self.api_secret@,
            ),
    {
        let ghost q0 = params_view(query@);
        let mut query = query;
        query.push((String::from_str("method"), method.to_owned()));
        query.push((String::from_str("api_key"), self.api_key.clone()));
        proof {
            assert(params_view(query@) =~= q0.push(("method"@, method@)).push(
                ("api_key"@, self.api_key@),
            ));
        }
        let sig = signature(&query, self.api_secret.as_str());
        query.push((String::from_str("api_sig"), sig));
        query.push((String::from_str("format"), String::from_str("json")));
        proof {
            assert(params_view(query@) =~= built_query(
                q0,
                method@,
                self.api_key@,
                self.api_secret@,
            ));
        }
        query
    }

    /// Records the session token an authentication call returned, and
    /// reports the authentication error when none came back.
    pub fn apply_session(&mut self, key: Option<String>) -> (r: Result<(), LastFMError>)
        ensures
            final(self).endpoint == old(self).endpoint,
            final(self).api_key == old(self).api_key,
            final(self).api_secret == old(self).api_secret,
            final(self).session_key == key,
            match r {
                Ok(()) => key is Some,
                Err(e) => key is None && e == LastFMError::AuthError,
            },
    {
        let got = key.is_some();
        self.session_key = key;
        if got {
            Ok(())
        } else {
            Err(LastFMError::AuthError)
        }
    }
}

/// The call-specific parameters of an authentication request.
pub fn auth_query(username: &str, password: &str) -> (q: Vec<(String, String)>)
    ensures
        params_view(q@) == seq![("username"@, username@), ("password"@, password@)],
{
    let mut q: Vec<(String, String)> = Vec::new();
    q.push((String::from_str("username"), username.to_owned()));
    q.push((String::from_str("password"), password.to_owned()));
    proof {
        assert(params_view(q@) =~= seq![("username"@, username@), ("password"@, password@)]);
    }
    q
}

/// The call-specific parameters of one history page request: the user,
/// the fixed page size of two hundred, and the page to fetch.
pub fn recent_tracks_query(username: &str, page: usize) -> (q: Vec<(String, String)>)
    ensures
        params_view(q@) == seq![
            ("user"@, username@),
            ("limit"@, "200"@),
            ("page"@, crate::text::dec_str_of(page as nat)),
        ],
{
    let mut q: Vec<(String, String)> = Vec::new();
    q.push((String::from_str("user"), username.to_owned()));
    q.push((String::from_str("limit"), String::from_str("200")));
    q.push((String::from_str("page"), crate::text::usize_to_string(page)));
    proof {
        assert(params_view(q@) =~= seq![
            ("user"@, username@),
            ("limit"@, "200"@),
            ("page"@, crate::text::dec_str_of(page as nat)),
        ]);
    }
    q
}

/// The call-specific parameters of one loved-track page request.
pub fn loved_tracks_query(username: &str, page: usize) -> (q: Vec<(String, String)>)
    ensures
        params_view(q@) == seq![
            ("user"@, username@),
            ("limit"@, "200"@),
            ("page"@, crate::text::dec_str_of(page as nat)),
        ],
{
    let mut q: Vec<(String, String)> = Vec::new();
    q.push((String::from_str("user"), username.to_owned()));
    q.push((String::from_str("limit"), String::from_str("200")));
    q.push((String::from_str("page"), crate::text::usize_to_string(page)));
    proof {
        assert(params_view(q@) =~= seq![
            ("user"@, username@),
            ("limit"@, "200"@),
            ("page"@, crate::text::dec_str_of(page as nat)),
        ]);
    }
    q
}

/// The call-specific parameters of one friends page request: the page
/// size is fifty here.
pub fn friends_query(username: &str, page: usize) -> (q: Vec<(String, String)>)
    ensures
        params_view(q@) == seq![
            ("user"@, username@),
            ("limit"@, "50"@),
            ("page"@, crate::text::dec_str_of(page as nat)),
        ],
{
    let mut q: Vec<(String, String)> = Vec::new();
    q.push((String::from_str("user"), username.to_owned()));
    q.push((String::from_str("limit"), String::from_str("50")));
    q.push((String::from_str("page"), crate::text::usize_to_string(page)));
    proof {
        assert(params_view(q@) =~= seq![
            ("user"@, username@),
            ("limit"@, "50"@),
            ("page"@, crate::text::dec_str_of(page as nat)),
        ]);
    }
    q
}

} // verus!
