//! The response normalizer: maps the API's loosely-typed, inconsistently
//! optional payload fields onto the strict record model. Empty strings
//! become absent values, truthy values of any shape become booleans, and
//! timestamps are parsed strictly from their numeric-seconds form. A field
//! that cannot be coerced is a normalization error for its record alone.

use vstd::prelude::*;
use crate::api::{
    Date, Friend, Friends, Image, ImageSize, LovedArtist, LovedTrack, LovedTracks, RecentTracks,
    RegisterDate, RequestAttributes, Track, TrackAttributes,
};
use crate::api::{Album, Artist};
use crate::text::{
    eq_ignore_ascii_case, is_signed_dec, is_unsigned_dec, parse_i64, parse_usize,
    signed_dec_value, str_eq, str_eq_ignore_ascii_case, dec_value, unsigned_body,
};

verus! {

/// A single record field that could not be coerced into the strict model.
#[derive(Debug, Clone, Copy, PartialEq, Eq, Structural)]
pub enum NormalizeError {
    /// A boolean field held a value no truthy reading fits.
    BadBool,
    /// A pagination counter was not an unsigned decimal number.
    BadNumber,
    /// A timestamp was not a decimal number of seconds.
    BadTimestamp,
    /// An image size tag was none of the known size classes.
    BadImageSize,
}

impl NormalizeError {
    /// A human-readable description of the failure.
    pub fn message(&self) -> (msg: &'static str)
        ensures
            self is BadBool ==> msg@ == "Could not coerce a boolean field."@,
            self is BadNumber ==> msg@ == "Could not parse a numeric field."@,
            self is BadTimestamp ==> msg@ == "Could not parse a timestamp."@,
            self is BadImageSize ==> msg@ == "Unknown image size."@,
    {
        match self {
            NormalizeError::BadBool => "Could not coerce a boolean field.",
            NormalizeError::BadNumber => "Could not parse a numeric field.",
            NormalizeError::BadTimestamp => "Could not parse a timestamp.",
            NormalizeError::BadImageSize => "Unknown image size.",
        }
    }
}

// The raw shapes below mirror the response payloads: every scalar arrives
// as text, optionality is conveyed by empty strings, and the subscriber
// flag may be a boolean, a number or text.

pub struct RawImage {
    pub url: String,
    pub size: String,
}

pub struct RawArtist {
    pub name: String,
    pub mbid: String,
}

pub struct RawAlbum {
    pub name: String,
    pub mbid: String,
}

pub struct RawTrackAttributes {
    pub now_playing: String,
}

pub struct RawDate {
    pub pretty_string: String,
    pub uts: String,
}

pub struct RawTrack {
    pub attributes: Option<RawTrackAttributes>,
    pub artist: RawArtist,
    pub album: Option<RawAlbum>,
    pub name: String,
    pub image: Vec<RawImage>,
    pub date: Option<RawDate>,
    pub url: String,
    pub mbid: String,
}

pub struct RawLovedTrack {
    pub attributes: Option<RawTrackAttributes>,
    pub artist: RawArtist,
    pub name: String,
    pub image: Vec<RawImage>,
    pub date: Option<RawDate>,
    pub url: String,
    pub mbid: String,
}

pub struct RawRegisterDate {
    pub pretty_string: String,
    pub unixtime: String,
}

/// A boolean field as it may arrive: a real boolean, a number, or text.
pub enum LooseBool {
    Truth(bool),
    Number(i64),
    Text(String),
}

pub struct RawFriend {
    pub name: String,
    pub image: Vec<RawImage>,
    pub country: String,
    pub url: String,
    pub subscriber: LooseBool,
    pub real_name: String,
    pub registered: RawRegisterDate,
}

pub struct RawRequestAttributes {
    pub page: String,
    pub per_page: String,
    pub total: String,
    pub total_pages: String,
    pub username: String,
}

pub struct RawRecentTracks {
    pub attributes: RawRequestAttributes,
    pub tracks: Vec<RawTrack>,
}

pub struct RawLovedTracks {
    pub attributes: RawRequestAttributes,
    pub tracks: Vec<RawLovedTrack>,
}

pub struct RawFriends {
    pub attributes: RawRequestAttributes,
    pub friends: Vec<RawFriend>,
}

/// The content of an optional string field.
pub open spec fn opt_view(o: Option<String>) -> Option<Seq<char>> {
    match o {
        Option::Some(s) => Option::Some(s@),
        Option::None => Option::None,
    }
}

/// An empty string conveys absence; anything else is the value itself.
pub open spec fn norm_opt(s: Seq<char>) -> Option<Seq<char>> {
    if s.len() == 0 {
        Option::None
    } else {
        Option::Some(s)
    }
}

/// Resolves an empty-string-as-absent field into an explicit option.
pub fn normalize_optional(s: String) -> (r: Option<String>)
    ensures
        opt_view(r) == norm_opt(s@),
{
    if s.as_str().is_empty() {
        None
    } else {
        Some(s)
    }
}

/// The strict reading of a boolean rendered as text: exactly `true` or
/// `false`.
pub open spec fn bool_of_text(s: Seq<char>) -> Option<bool> {
    if s == "true"@ {
        Option::Some(true)
    } else if s == "false"@ {
        Option::Some(false)
    } else {
        Option::None
    }
}

/// Parses a boolean rendered as text, as the in-flight marker arrives.
pub fn parse_strict_bool(s: &str) -> (r: Result<bool, NormalizeError>)
    ensures
        match r {
            Ok(b) => bool_of_text(s@) == Option::Some(b),
            Err(e) => bool_of_text(s@) is None && e == NormalizeError::BadBool,
        },
{
    if str_eq(s, "true") {
        Ok(true)
    } else if str_eq(s, "false") {
        Ok(false)
    } else {
        Err(NormalizeError::BadBool)
    }
}

/// The truthy reading of a loosely-typed boolean: booleans stand for
/// themselves; the numbers one and zero, in numeric or in textual form
/// (folding ASCII case for `true` and `false`), mean true and false; and
/// nothing else has a reading.
pub open spec fn loose_bool_of(v: LooseBool) -> Option<bool> {
    match v {
        LooseBool::Truth(b) => Option::Some(b),
        LooseBool::Number(i) => if i == 1 {
            Option::Some(true)
        } else if i == 0 {
            Option::Some(false)
        } else {
            Option::None
        },
        LooseBool::Text(s) => if eq_ignore_ascii_case(s@, "true"@) {
            Option::Some(true)
        } else if eq_ignore_ascii_case(s@, "false"@) {
            Option::Some(false)
        } else if is_signed_dec(s@) && signed_dec_value(s@) == 1 {
            Option::Some(true)
        } else if is_signed_dec(s@) && signed_dec_value(s@) == 0 {
            Option::Some(false)
        } else {
            Option::None
        },
    }
}

/// Coerces a loosely-typed truthy value to a strict boolean.
pub fn coerce_bool(v: &LooseBool) -> (r: Result<bool, NormalizeError>)
    ensures
        match r {
            Ok(b) => loose_bool_of(*v) == Option::Some(b),
            Err(e) => loose_bool_of(*v) is None && e == NormalizeError::BadBool,
        },
{
    match v {
        LooseBool::Truth(b) => Ok(*b),
        LooseBool::Number(i) => {
            if *i == 1 {
                Ok(true)
            } else if *i == 0 {
                Ok(false)
            } else {
                Err(NormalizeError::BadBool)
            }
        },
        LooseBool::Text(s) => {
            if str_eq_ignore_ascii_case(s.as_str(), "true") {
                Ok(true)
            } else if str_eq_ignore_ascii_case(s.as_str(), "false") {
                Ok(false)
            } else {
                match parse_i64(s.as_str()) {
                    Some(n) => {
                        if n == 1 {
                            Ok(true)
                        } else if n == 0 {
                            Ok(false)
                        } else {
                            Err(NormalizeError::BadBool)
                        }
                    },
                    None => Err(NormalizeError::BadBool),
                }
            }
        },
    }
}

/// Whether a timestamp field holds a parseable number of seconds.
pub open spec fn ts_ok(s: Seq<char>) -> bool {
    is_signed_dec(s) && i64::MIN <= signed_dec_value(s) <= i64::MAX
}

/// How a strict date relates to its raw form: the readable text is kept,
/// and the timestamp is the parsed numeric seconds.
pub open spec fn date_norm(uts: Seq<char>, pretty: Seq<char>, d: Date) -> bool {
    &&& d.pretty_string@ == pretty
    &&& d.timestamp == signed_dec_value(uts)
}

/// Parses a play date from its raw form.
pub fn normalize_date(raw: RawDate) -> (r: Result<Date, NormalizeError>)
    ensures
        match r {
            Ok(d) => ts_ok(raw.uts@) && date_norm(raw.uts@, raw.pretty_string@, d),
            Err(e) => !ts_ok(raw.uts@) && e == NormalizeError::BadTimestamp,
        },
{
    match parse_i64(raw.uts.as_str()) {
        Some(ts) => Ok(Date { pretty_string: raw.pretty_string, timestamp: ts }),
        None => Err(NormalizeError::BadTimestamp),
    }
}

/// How a strict registration date relates to its raw form.
pub open spec fn register_date_norm(raw: RawRegisterDate, d: RegisterDate) -> bool {
    &&& d.pretty_string@ == raw.pretty_string@
    &&& d.timestamp == signed_dec_value(raw.unixtime@)
}

/// Parses a registration date from its raw form.
pub fn normalize_register_date(raw: RawRegisterDate) -> (r: Result<
    RegisterDate,
    NormalizeError,
>)
    ensures
        match r {
            Ok(d) => ts_ok(raw.unixtime@) && register_date_norm(raw, d),
            Err(e) => !ts_ok(raw.unixtime@) && e == NormalizeError::BadTimestamp,
        },
{
    match parse_i64(raw.unixtime.as_str()) {
        Some(ts) => Ok(RegisterDate { pretty_string: raw.pretty_string, timestamp: ts }),
        None => Err(NormalizeError::BadTimestamp),
    }
}

/// The size class a size tag names, exactly and case-sensitively.
pub open spec fn size_of_text(s: Seq<char>) -> Option<ImageSize> {
    if s == "small"@ {
        Option::Some(ImageSize::Small)
    } else if s == "medium"@ {
        Option::Some(ImageSize::Medium)
    } else if s == "large"@ {
        Option::Some(ImageSize::Large)
    } else if s == "extralarge"@ {
        Option::Some(ImageSize::ExtraLarge)
    } else {
        Option::None
    }
}

pub open spec fn image_ok(raw: RawImage) -> bool {
    size_of_text(raw.size@) is Some
}

/// How a strict image variant relates to its raw form: the size tag is
/// decoded and an empty URL becomes absent.
pub open spec fn image_norm(raw: RawImage, img: Image) -> bool {
    &&& opt_view(img.url) == norm_opt(raw.url@)
    &&& Option::Some(img.size) == size_of_text(raw.size@)
}

/// Parses one image variant from its raw form.
pub fn normalize_image(raw: RawImage) -> (r: Result<Image, NormalizeError>)
    ensures
        match r {
            Ok(img) => image_ok(raw) && image_norm(raw, img),
            Err(e) => !image_ok(raw) && e == NormalizeError::BadImageSize,
        },
{
    let size = if str_eq(raw.size.as_str(), "small") {
        ImageSize::Small
    } else if str_eq(raw.size.as_str(), "medium") {
        ImageSize::Medium
    } else if str_eq(raw.size.as_str(), "large") {
        ImageSize::Large
    } else if str_eq(raw.size.as_str(), "extralarge") {
        ImageSize::ExtraLarge
    } else {
        return Err(NormalizeError::BadImageSize);
    };
    Ok(Image { url: normalize_optional(raw.url), size })
}

pub open spec fn images_ok(raws: Seq<RawImage>) -> bool {
    forall|i: int| 0 <= i < raws.len() ==> image_ok(#[trigger] raws[i])
}

pub open spec fn images_norm(raws: Seq<RawImage>, out: Seq<Image>) -> bool {
    &&& out.len() == raws.len()
    &&& forall|i: int| 0 <= i < raws.len() ==> image_norm(#[trigger] raws[i], out[i])
}

/// Parses a whole image variant list; one unknown size tag fails the list.
pub fn normalize_images(raws: Vec<RawImage>) -> (r: Result<Vec<Image>, NormalizeError>)
    ensures
        match r {
            Ok(out) => images_ok(raws@) && images_norm(raws@, out@),
            Err(e) => !images_ok(raws@) && e == NormalizeError::BadImageSize,
        },
{
    let ghost raw_views = raws@;
    let mut out: Vec<Image> = Vec::new();
    let mut rest = raws;
    let mut i: usize = 0;
    let n = rest.len();
    while i < n
        invariant
            i <= n,
            raw_views == raws@,
            n == raw_views.len(),
            rest@ =~= raw_views.skip(i as int),
            out@.len() == i,
            forall|k: int| 0 <= k < i ==> image_ok(#[trigger] raw_views[k]),
            forall|k: int| 0 <= k < i ==> image_norm(#[trigger] raw_views[k], out@[k]),
        decreases n - i,
    {
        let raw = rest.remove(0);
        proof {
            assert(raw == raw_views[i as int]);
            assert(rest@ =~= raw_views.skip(i + 1));
        }
        match normalize_image(raw) {
            Ok(img) => {
                out.push(img);
            },
            Err(e) => {
                proof {
                    assert(!image_ok(raw_views[i as int]));
                }
                return Err(e);
            },
        }
        i = i + 1;
    }
    Ok(out)
}

pub open spec fn attrs_ok(o: Option<RawTrackAttributes>) -> bool {
    match o {
        Option::Some(a) => bool_of_text(a.now_playing@) is Some,
        Option::None => true,
    }
}

pub open spec fn attrs_norm(o: Option<RawTrackAttributes>, n: Option<TrackAttributes>) -> bool {
    match o {
        Option::Some(a) => match n {
            Option::Some(t) => Option::Some(t.now_playing) == bool_of_text(a.now_playing@),
            Option::None => false,
        },
        Option::None => n is None,
    }
}

/// Parses the optional in-flight attribute block of a track.
pub fn normalize_attrs(o: Option<RawTrackAttributes>) -> (r: Result<
    Option<TrackAttributes>,
    NormalizeError,
>)
    ensures
        match r {
            Ok(n) => attrs_ok(o) && attrs_norm(o, n),
            Err(e) => !attrs_ok(o) && e == NormalizeError::BadBool,
        },
{
    match o {
        Some(a) => {
            match parse_strict_bool(a.now_playing.as_str()) {
                Ok(b) => Ok(Some(TrackAttributes { now_playing: b })),
                Err(e) => Err(e),
            }
        },
        None => Ok(None),
    }
}

pub open spec fn opt_date_ok(o: Option<RawDate>) -> bool {
    match o {
        Option::Some(d) => ts_ok(d.uts@),
        Option::None => true,
    }
}

pub open spec fn opt_date_norm(o: Option<RawDate>, n: Option<Date>) -> bool {
    match o {
        Option::Some(rd) => match n {
            Option::Some(d) => date_norm(rd.uts@, rd.pretty_string@, d),
            Option::None => false,
        },
        Option::None => n is None,
    }
}

/// Parses the optional play date of a track.
pub fn normalize_opt_date(o: Option<RawDate>) -> (r: Result<Option<Date>, NormalizeError>)
    ensures
        match r {
            Ok(n) => opt_date_ok(o) && opt_date_norm(o, n),
            Err(e) => !opt_date_ok(o) && e == NormalizeError::BadTimestamp,
        },
{
    match o {
        Some(rd) => {
            match normalize_date(rd) {
                Ok(d) => Ok(Some(d)),
                Err(e) => Err(e),
            }
        },
        None => Ok(None),
    }
}

/// Whether every coercible field of a raw play record has a reading.
pub open spec fn track_ok(r: RawTrack) -> bool {
    &&& attrs_ok(r.attributes)
    &&& opt_date_ok(r.date)
    &&& images_ok(r.image@)
}

/// The error reported for an uncoercible play record: its first bad field
/// in attribute, date, image order.
pub open spec fn track_err(r: RawTrack) -> NormalizeError {
    if !attrs_ok(r.attributes) {
        NormalizeError::BadBool
    } else if !opt_date_ok(r.date) {
        NormalizeError::BadTimestamp
    } else {
        NormalizeError::BadImageSize
    }
}

/// How a strict play record relates to its raw form, field by field.
pub open spec fn track_norm(r: RawTrack, t: Track) -> bool {
    &&& attrs_norm(r.attributes, t.attributes)
    &&& t.artist.name@ == r.artist.name@
    &&& opt_view(t.artist.mbid) == norm_opt(r.artist.mbid@)
    &&& match r.album {
        Option::Some(ra) => match t.album {
            Option::Some(a) => a.name@ == ra.name@ && opt_view(a.mbid) == norm_opt(ra.mbid@),
            Option::None => false,
        },
        Option::None => t.album is None,
    }
    &&& t.name@ == r.name@
    &&& images_norm(r.image@, t.image@)
    &&& opt_date_norm(r.date, t.date)
    &&& t.url@ == r.url@
    &&& opt_view(t.mbid) == norm_opt(r.mbid@)
}

/// Converts one raw play record into the strict model, or reports its
/// first uncoercible field.
pub fn normalize_track(raw: RawTrack) -> (r: Result<Track, NormalizeError>)
    ensures
        match r {
            Ok(t) => track_ok(raw) && track_norm(raw, t),
            Err(e) => !track_ok(raw) && e == track_err(raw),
        },
{
    let attributes = match normalize_attrs(raw.attributes) {
        Ok(n) => n,
        Err(e) => {
            return Err(e);
        },
    };
    let date = match normalize_opt_date(raw.date) {
        Ok(n) => n,
        Err(e) => {
            return Err(e);
        },
    };
    let image = match normalize_images(raw.image) {
        Ok(n) => n,
        Err(e) => {
            return Err(e);
        },
    };
    Ok(
        Track {
            attributes,
            artist: Artist {
                name: raw.artist.name,
                mbid: normalize_optional(raw.artist.mbid),
            },
            album: match raw.album {
                Some(ra) => Some(
                    Album { name: ra.name, mbid: normalize_optional(ra.mbid) },
                ),
                None => None,
            },
            name: raw.name,
            image,
            date,
            url: raw.url,
            mbid: normalize_optional(raw.mbid),
        },
    )
}

/// Whether every coercible field of a raw loved track has a reading.
pub open spec fn loved_ok(r: RawLovedTrack) -> bool {
    &&& attrs_ok(r.attributes)
    &&& opt_date_ok(r.date)
    &&& images_ok(r.image@)
}

/// The error reported for an uncoercible loved track.
pub open spec fn loved_err(r: RawLovedTrack) -> NormalizeError {
    if !attrs_ok(r.attributes) {
        NormalizeError::BadBool
    } else if !opt_date_ok(r.date) {
        NormalizeError::BadTimestamp
    } else {
        NormalizeError::BadImageSize
    }
}

/// How a strict loved track relates to its raw form, field by field.
pub open spec fn loved_norm(r: RawLovedTrack, t: LovedTrack) -> bool {
    &&& attrs_norm(r.attributes, t.attributes)
    &&& t.artist.name@ == r.artist.name@
    &&& opt_view(t.artist.mbid) == norm_opt(r.artist.mbid@)
    &&& t.name@ == r.name@
    &&& images_norm(r.image@, t.image@)
    &&& opt_date_norm(r.date, t.date)
    &&& t.url@ == r.url@
    &&& opt_view(t.mbid) == norm_opt(r.mbid@)
}

/// Converts one raw loved track into the strict model, or reports its
/// first uncoercible field.
pub fn normalize_loved_track(raw: RawLovedTrack) -> (r: Result<LovedTrack, NormalizeError>)
    ensures
        match r {
            Ok(t) => loved_ok(raw) && loved_norm(raw, t),
            Err(e) => !loved_ok(raw) && e == loved_err(raw),
        },
{
    let attributes = match normalize_attrs(raw.attributes) {
        Ok(n) => n,
        Err(e) => {
            return Err(e);
        },
    };
    let date = match normalize_opt_date(raw.date) {
        Ok(n) => n,
        Err(e) => {
            return Err(e);
        },
    };
    let image = match normalize_images(raw.image) {
        Ok(n) => n,
        Err(e) => {
            return Err(e);
        },
    };
    Ok(
        LovedTrack {
            attributes,
            artist: LovedArtist {
                name: raw.artist.name,
                mbid: normalize_optional(raw.artist.mbid),
            },
            name: raw.name,
            image,
            date,
            url: raw.url,
            mbid: normalize_optional(raw.mbid),
        },
    )
}

/// Whether every coercible field of a raw friend record has a reading.
pub open spec fn friend_ok(r: RawFriend) -> bool {
    &&& loose_bool_of(r.subscriber) is Some
    &&& ts_ok(r.registered.unixtime@)
    &&& images_ok(r.image@)
}

/// The error reported for an uncoercible friend record.
pub open spec fn friend_err(r: RawFriend) -> NormalizeError {
    if !(loose_bool_of(r.subscriber) is Some) {
        NormalizeError::BadBool
    } else if !ts_ok(r.registered.unixtime@) {
        NormalizeError::BadTimestamp
    } else {
        NormalizeError::BadImageSize
    }
}

/// How a strict friend record relates to its raw form, field by field.
pub open spec fn friend_norm(r: RawFriend, f: Friend) -> bool {
    &&& f.name@ == r.name@
    &&& images_norm(r.image@, f.image@)
    &&& f.country@ == r.country@
    &&& f.url@ == r.url@
    &&& Option::Some(f.subscriber) == loose_bool_of(r.subscriber)
    &&& opt_view(f.real_name) == norm_opt(r.real_name@)
    &&& register_date_norm(r.registered, f.registered)
}

/// Converts one raw friend record into the strict model, or reports its
/// first uncoercible field.
pub fn normalize_friend(raw: RawFriend) -> (r: Result<Friend, NormalizeError>)
    ensures
        match r {
            Ok(f) => friend_ok(raw) && friend_norm(raw, f),
            Err(e) => !friend_ok(raw) && e == friend_err(raw),
        },
{
    let subscriber = match coerce_bool(&raw.subscriber) {
        Ok(b) => b,
        Err(e) => {
            return Err(e);
        },
    };
    let registered = match normalize_register_date(raw.registered) {
        Ok(d) => d,
        Err(e) => {
            return Err(e);
        },
    };
    let image = match normalize_images(raw.image) {
        Ok(n) => n,
        Err(e) => {
            return Err(e);
        },
    };
    Ok(
        Friend {
            name: raw.name,
            image,
            country: raw.country,
            url: raw.url,
            subscriber,
            real_name: normalize_optional(raw.real_name),
            registered,
        },
    )
}

/// Whether a pagination counter is a representable unsigned decimal.
pub open spec fn counter_ok(s: Seq<char>) -> bool {
    is_unsigned_dec(s) && dec_value(unsigned_body(s)) <= usize::MAX
}

pub open spec fn counter_val(s: Seq<char>) -> int {
    dec_value(unsigned_body(s))
}

/// Whether every counter of a raw metadata block parses.
pub open spec fn req_attrs_ok(r: RawRequestAttributes) -> bool {
    &&& counter_ok(r.page@)
    &&& counter_ok(r.per_page@)
    &&& counter_ok(r.total@)
    &&& counter_ok(r.total_pages@)
}

/// How a strict metadata block relates to its raw form.
pub open spec fn req_attrs_norm(r: RawRequestAttributes, a: RequestAttributes) -> bool {
    &&& a.page == counter_val(r.page@)
    &&& a.per_page == counter_val(r.per_page@)
    &&& a.total == counter_val(r.total@)
    &&& a.total_pages == counter_val(r.total_pages@)
    &&& a.username@ == r.username@
}

/// Parses the pagination metadata block of a page. A block that does not
/// parse fails the whole page, since the cursor cannot advance without it.
pub fn normalize_request_attributes(raw: RawRequestAttributes) -> (r: Result<
    RequestAttributes,
    NormalizeError,
>)
    ensures
        match r {
            Ok(a) => req_attrs_ok(raw) && req_attrs_norm(raw, a),
            Err(e) => !req_attrs_ok(raw) && e == NormalizeError::BadNumber,
        },
{
    let page = match parse_usize(raw.page.as_str()) {
        Some(v) => v,
        None => {
            return Err(NormalizeError::BadNumber);
        },
    };
    let per_page = match parse_usize(raw.per_page.as_str()) {
        Some(v) => v,
        None => {
            return Err(NormalizeError::BadNumber);
        },
    };
    let total = match parse_usize(raw.total.as_str()) {
        Some(v) => v,
        None => {
            return Err(NormalizeError::BadNumber);
        },
    };
    let total_pages = match parse_usize(raw.total_pages.as_str()) {
        Some(v) => v,
        None => {
            return Err(NormalizeError::BadNumber);
        },
    };
    Ok(
        RequestAttributes {
            page,
            per_page,
            total,
            total_pages,
            username: raw.username,
        },
    )
}

pub open spec fn track_ok_p() -> spec_fn(RawTrack) -> bool {
    |x: RawTrack| track_ok(x)
}

pub open spec fn track_bad_p() -> spec_fn(RawTrack) -> bool {
    |x: RawTrack| !track_ok(x)
}

pub open spec fn track_err_f() -> spec_fn(RawTrack) -> NormalizeError {
    |x: RawTrack| track_err(x)
}

/// Converts a page's play records one by one. Records whose fields all
/// coerce come out in order; each failing record contributes its error,
/// in order, and does not abort the page.
pub fn normalize_tracks(raws: Vec<RawTrack>) -> (r: (Vec<Track>, Vec<NormalizeError>))
    ensures
        r.0@.len() == raws@.filter(track_ok_p()).len(),
        forall|k: int|
            0 <= k < r.0@.len() ==> track_norm(raws@.filter(track_ok_p())[k], #[trigger] r.0@[k]),
        r.1@ == raws@.filter(track_bad_p()).map_values(track_err_f()),
{
    let ghost raw_views = raws@;
    let mut tracks: Vec<Track> = Vec::new();
    let mut errors: Vec<NormalizeError> = Vec::new();
    let mut rest = raws;
    let mut i: usize = 0;
    let n = rest.len();
    proof {
        assert(raw_views.take(0) =~= Seq::<RawTrack>::empty());
        reveal(Seq::filter);
    }
    while i < n
        invariant
            i <= n,
            raw_views == raws@,
            n == raw_views.len(),
            rest@ =~= raw_views.skip(i as int),
            tracks@.len() == raw_views.take(i as int).filter(track_ok_p()).len(),
            forall|k: int|
                0 <= k < tracks@.len() ==> track_norm(
                    raw_views.take(i as int).filter(track_ok_p())[k],
                    #[trigger] tracks@[k],
                ),
            errors@ == raw_views.take(i as int).filter(track_bad_p()).map_values(track_err_f()),
        decreases n - i,
    {
        let raw = rest.remove(0);
        proof {
            reveal(Seq::filter);
            assert(raw == raw_views[i as int]);
            assert(rest@ =~= raw_views.skip(i + 1));
            assert(raw_views.take(i + 1).drop_last() =~= raw_views.take(i as int));
            assert(raw_views.take(i + 1).last() == raw_views[i as int]);
        }
        match normalize_track(raw) {
            Ok(t) => {
                tracks.push(t);
                proof {
                    reveal(Seq::filter);
                    assert(raw_views.take(i + 1).filter(track_ok_p()) =~= raw_views.take(
                        i as int,
                    ).filter(track_ok_p()).push(raw_views[i as int]));
                    assert(raw_views.take(i + 1).filter(track_bad_p()) =~= raw_views.take(
                        i as int,
                    ).filter(track_bad_p()));
                }
            },
            Err(e) => {
                errors.push(e);
                proof {
                    reveal(Seq::filter);
                    assert(raw_views.take(i + 1).filter(track_ok_p()) =~= raw_views.take(
                        i as int,
                    ).filter(track_ok_p()));
                    assert(raw_views.take(i + 1).filter(track_bad_p()) =~= raw_views.take(
                        i as int,
                    ).filter(track_bad_p()).push(raw_views[i as int]));
                    assert(errors@ =~= raw_views.take(i + 1).filter(track_bad_p()).map_values(
                        track_err_f(),
                    ));
                }
            },
        }
        i = i + 1;
    }
    proof {
        assert(raw_views.take(n as int) =~= raw_views);
    }
    (tracks, errors)
}

pub open spec fn loved_ok_p() -> spec_fn(RawLovedTrack) -> bool {
    |x: RawLovedTrack| loved_ok(x)
}

pub open spec fn loved_bad_p() -> spec_fn(RawLovedTrack) -> bool {
    |x: RawLovedTrack| !loved_ok(x)
}

pub open spec fn loved_err_f() -> spec_fn(RawLovedTrack) -> NormalizeError {
    |x: RawLovedTrack| loved_err(x)
}

/// Converts a page's loved tracks one by one, as `normalize_tracks` does.
pub fn normalize_loved_tracks(raws: Vec<RawLovedTrack>) -> (r: (
    Vec<LovedTrack>,
    Vec<NormalizeError>,
))
    ensures
        r.0@.len() == raws@.filter(loved_ok_p()).len(),
        forall|k: int|
            0 <= k < r.0@.len() ==> loved_norm(raws@.filter(loved_ok_p())[k], #[trigger] r.0@[k]),
        r.1@ == raws@.filter(loved_bad_p()).map_values(loved_err_f()),
{
    let ghost raw_views = raws@;
    let mut tracks: Vec<LovedTrack> = Vec::new();
    let mut errors: Vec<NormalizeError> = Vec::new();
    let mut rest = raws;
    let mut i: usize = 0;
    let n = rest.len();
    proof {
        assert(raw_views.take(0) =~= Seq::<RawLovedTrack>::empty());
        reveal(Seq::filter);
    }
    while i < n
        invariant
            i <= n,
            raw_views == raws@,
            n == raw_views.len(),
            rest@ =~= raw_views.skip(i as int),
            tracks@.len() == raw_views.take(i as int).filter(loved_ok_p()).len(),
            forall|k: int|
                0 <= k < tracks@.len() ==> loved_norm(
                    raw_views.take(i as int).filter(loved_ok_p())[k],
                    #[trigger] tracks@[k],
                ),
            errors@ == raw_views.take(i as int).filter(loved_bad_p()).map_values(loved_err_f()),
        decreases n - i,
    {
        let raw = rest.remove(0);
        proof {
            reveal(Seq::filter);
            assert(raw == raw_views[i as int]);
            assert(rest@ =~= raw_views.skip(i + 1));
            assert(raw_views.take(i + 1).drop_last() =~= raw_views.take(i as int));
            assert(raw_views.take(i + 1).last() == raw_views[i as int]);
        }
        match normalize_loved_track(raw) {
            Ok(t) => {
                tracks.push(t);
                proof {
                    reveal(Seq::filter);
                    assert(raw_views.take(i + 1).filter(loved_ok_p()) =~= raw_views.take(
                        i as int,
                    ).filter(loved_ok_p()).push(raw_views[i as int]));
                    assert(raw_views.take(i + 1).filter(loved_bad_p()) =~= raw_views.take(
                        i as int,
                    ).filter(loved_bad_p()));
                }
            },
            Err(e) => {
                errors.push(e);
                proof {
                    reveal(Seq::filter);
                    assert(raw_views.take(i + 1).filter(loved_ok_p()) =~= raw_views.take(
                        i as int,
                    ).filter(loved_ok_p()));
                    assert(raw_views.take(i + 1).filter(loved_bad_p()) =~= raw_views.take(
                        i as int,
                    ).filter(loved_bad_p()).push(raw_views[i as int]));
                    assert(errors@ =~= raw_views.take(i + 1).filter(loved_bad_p()).map_values(
                        loved_err_f(),
                    ));
                }
            },
        }
        i = i + 1;
    }
    proof {
        assert(raw_views.take(n as int) =~= raw_views);
    }
    (tracks, errors)
}

pub open spec fn friend_ok_p() -> spec_fn(RawFriend) -> bool {
    |x: RawFriend| friend_ok(x)
}

pub open spec fn friend_bad_p() -> spec_fn(RawFriend) -> bool {
    |x: RawFriend| !friend_ok(x)
}

pub open spec fn friend_err_f() -> spec_fn(RawFriend) -> NormalizeError {
    |x: RawFriend| friend_err(x)
}

/// Converts a page's friend records one by one, as `normalize_tracks`
/// does.
pub fn normalize_friends(raws: Vec<RawFriend>) -> (r: (Vec<Friend>, Vec<NormalizeError>))
    ensures
        r.0@.len() == raws@.filter(friend_ok_p()).len(),
        forall|k: int|
            0 <= k < r.0@.len() ==> friend_norm(raws@.filter(friend_ok_p())[k], #[trigger] r.0@[k]),
        r.1@ == raws@.filter(friend_bad_p()).map_values(friend_err_f()),
{
    let ghost raw_views = raws@;
    let mut friends: Vec<Friend> = Vec::new();
    let mut errors: Vec<NormalizeError> = Vec::new();
    let mut rest = raws;
    let mut i: usize = 0;
    let n = rest.len();
    proof {
        assert(raw_views.take(0) =~= Seq::<RawFriend>::empty());
        reveal(Seq::filter);
    }
    while i < n
        invariant
            i <= n,
            raw_views == raws@,
            n == raw_views.len(),
            rest@ =~= raw_views.skip(i as int),
            friends@.len() == raw_views.take(i as int).filter(friend_ok_p()).len(),
            forall|k: int|
                0 <= k < friends@.len() ==> friend_norm(
                    raw_views.take(i as int).filter(friend_ok_p())[k],
                    #[trigger] friends@[k],
                ),
            errors@ == raw_views.take(i as int).filter(friend_bad_p()).map_values(friend_err_f()),
        decreases n - i,
    {
        let raw = rest.remove(0);
        proof {
            reveal(Seq::filter);
            assert(raw == raw_views[i as int]);
            assert(rest@ =~= raw_views.skip(i + 1));
            assert(raw_views.take(i + 1).drop_last() =~= raw_views.take(i as int));
            assert(raw_views.take(i + 1).last() == raw_views[i as int]);
        }
        match normalize_friend(raw) {
            Ok(f) => {
                friends.push(f);
                proof {
                    reveal(Seq::filter);
                    assert(raw_views.take(i + 1).filter(friend_ok_p()) =~= raw_views.take(
                        i as int,
                    ).filter(friend_ok_p()).push(raw_views[i as int]));
                    assert(raw_views.take(i + 1).filter(friend_bad_p()) =~= raw_views.take(
                        i as int,
                    ).filter(friend_bad_p()));
                }
            },
            Err(e) => {
                errors.push(e);
                proof {
                    reveal(Seq::filter);
                    assert(raw_views.take(i + 1).filter(friend_ok_p()) =~= raw_views.take(
                        i as int,
                    ).filter(friend_ok_p()));
                    assert(raw_views.take(i + 1).filter(friend_bad_p()) =~= raw_views.take(
                        i as int,
                    ).filter(friend_bad_p()).push(raw_views[i as int]));
                    assert(errors@ =~= raw_views.take(i + 1).filter(friend_bad_p()).map_values(
                        friend_err_f(),
                    ));
                }
            },
        }
        i = i + 1;
    }
    proof {
        assert(raw_views.take(n as int) =~= raw_views);
    }
    (friends, errors)
}

/// Converts one deserialized history page into the strict model: the
/// metadata block must parse, and the records are converted one by one
/// with per-record failures collected, not aborting the page.
pub fn normalize_recent_tracks(raw: RawRecentTracks) -> (r: Result<
    (RecentTracks, Vec<NormalizeError>),
    NormalizeError,
>)
    ensures
        match r {
            Ok(p) => {
                &&& req_attrs_ok(raw.attributes)
                &&& req_attrs_norm(raw.attributes, p.0.attributes)
                &&& p.0.tracks@.len() == raw.tracks@.filter(track_ok_p()).len()
                &&& forall|k: int|
                    0 <= k < p.0.tracks@.len() ==> track_norm(
                        raw.tracks@.filter(track_ok_p())[k],
                        #[trigger] p.0.tracks@[k],
                    )
                &&& p.1@ == raw.tracks@.filter(track_bad_p()).map_values(track_err_f())
            },
            Err(e) => !req_attrs_ok(raw.attributes) && e == NormalizeError::BadNumber,
        },
{
    let attributes = match normalize_request_attributes(raw.attributes) {
        Ok(a) => a,
        Err(e) => {
            return Err(e);
        },
    };
    let (tracks, errors) = normalize_tracks(raw.tracks);
    Ok((RecentTracks { attributes, tracks }, errors))
}

/// Converts one deserialized loved-track page into the strict model, as
/// `normalize_recent_tracks` does.
pub fn normalize_loved_tracks_page(raw: RawLovedTracks) -> (r: Result<
    (LovedTracks, Vec<NormalizeError>),
    NormalizeError,
>)
    ensures
        match r {
            Ok(p) => {
                &&& req_attrs_ok(raw.attributes)
                &&& req_attrs_norm(raw.attributes, p.0.attributes)
                &&& p.0.tracks@.len() == raw.tracks@.filter(loved_ok_p()).len()
                &&& forall|k: int|
                    0 <= k < p.0.tracks@.len() ==> loved_norm(
                        raw.tracks@.filter(loved_ok_p())[k],
                        #[trigger] p.0.tracks@[k],
                    )
                &&& p.1@ == raw.tracks@.filter(loved_bad_p()).map_values(loved_err_f())
            },
            Err(e) => !req_attrs_ok(raw.attributes) && e == NormalizeError::BadNumber,
        },
{
    let attributes = match normalize_request_attributes(raw.attributes) {
        Ok(a) => a,
        Err(e) => {
            return Err(e);
        },
    };
    let (tracks, errors) = normalize_loved_tracks(raw.tracks);
    Ok((LovedTracks { attributes, tracks }, errors))
}

/// Converts one deserialized friends page into the strict model, as
/// `normalize_recent_tracks` does.
pub fn normalize_friends_page(raw: RawFriends) -> (r: Result<
    (Friends, Vec<NormalizeError>),
    NormalizeError,
>)
    ensures
        match r {
            Ok(p) => {
                &&& req_attrs_ok(raw.attributes)
                &&& req_attrs_norm(raw.attributes, p.0.attributes)
                &&& p.0.friends@.len() == raw.friends@.filter(friend_ok_p()).len()
                &&& forall|k: int|
                    0 <= k < p.0.friends@.len() ==> friend_norm(
                        raw.friends@.filter(friend_ok_p())[k],
                        #[trigger] p.0.friends@[k],
                    )
                &&& p.1@ == raw.friends@.filter(friend_bad_p()).map_values(friend_err_f())
            },
            Err(e) => !req_attrs_ok(raw.attributes) && e == NormalizeError::BadNumber,
        },
{
    let attributes = match normalize_request_attributes(raw.attributes) {
        Ok(a) => a,
        Err(e) => {
            return Err(e);
        },
    };
    let (friends, errors) = normalize_friends(raw.friends);
    Ok((Friends { attributes, friends }, errors))
}

} // verus!
