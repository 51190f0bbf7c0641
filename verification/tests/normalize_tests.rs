use hatchery::api::ImageSize;
use hatchery::normalize::{
    coerce_bool, normalize_date, normalize_image, normalize_optional,
    normalize_request_attributes, normalize_track, normalize_tracks, parse_strict_bool,
    LooseBool, NormalizeError, RawArtist, RawDate, RawImage, RawRequestAttributes, RawTrack,
    RawTrackAttributes,
};
use hatchery::text::{parse_i64, parse_usize};

#[test]
fn empty_string_becomes_absent() {
    assert_eq!(normalize_optional(String::new()), None);
    assert_eq!(normalize_optional("x".to_string()), Some("x".to_string()));
}

#[test]
fn strict_bool_accepts_exactly_true_and_false() {
    assert_eq!(parse_strict_bool("true"), Ok(true));
    assert_eq!(parse_strict_bool("false"), Ok(false));
    assert_eq!(parse_strict_bool("True"), Err(NormalizeError::BadBool));
    assert_eq!(parse_strict_bool(""), Err(NormalizeError::BadBool));
    assert_eq!(parse_strict_bool("1"), Err(NormalizeError::BadBool));
}

#[test]
fn loose_bool_coercion() {
    assert_eq!(coerce_bool(&LooseBool::Truth(true)), Ok(true));
    assert_eq!(coerce_bool(&LooseBool::Truth(false)), Ok(false));
    assert_eq!(coerce_bool(&LooseBool::Number(1)), Ok(true));
    assert_eq!(coerce_bool(&LooseBool::Number(0)), Ok(false));
    assert_eq!(
        coerce_bool(&LooseBool::Number(2)),
        Err(NormalizeError::BadBool)
    );
    assert_eq!(coerce_bool(&LooseBool::Text("1".to_string())), Ok(true));
    assert_eq!(coerce_bool(&LooseBool::Text("0".to_string())), Ok(false));
    assert_eq!(coerce_bool(&LooseBool::Text("true".to_string())), Ok(true));
    assert_eq!(coerce_bool(&LooseBool::Text("TRUE".to_string())), Ok(true));
    assert_eq!(coerce_bool(&LooseBool::Text("False".to_string())), Ok(false));
    assert_eq!(
        coerce_bool(&LooseBool::Text("yes".to_string())),
        Err(NormalizeError::BadBool)
    );
    assert_eq!(
        coerce_bool(&LooseBool::Text("2".to_string())),
        Err(NormalizeError::BadBool)
    );
}

#[test]
fn timestamps_parse_strictly() {
    let date = normalize_date(RawDate {
        pretty_string: "14 Nov 2023, 22:13".to_string(),
        uts: "1700000000".to_string(),
    })
    .unwrap();
    assert_eq!(date.timestamp, 1700000000);
    assert_eq!(date.pretty_string, "14 Nov 2023, 22:13");

    let bad = normalize_date(RawDate {
        pretty_string: "?".to_string(),
        uts: "17.5".to_string(),
    });
    assert_eq!(bad.unwrap_err(), NormalizeError::BadTimestamp);
}

#[test]
fn decimal_parsers_handle_signs_and_limits() {
    assert_eq!(parse_usize("0"), Some(0));
    assert_eq!(parse_usize("+42"), Some(42));
    assert_eq!(parse_usize("18446744073709551615"), Some(usize::MAX));
    assert_eq!(parse_usize("18446744073709551616"), None);
    assert_eq!(parse_usize(""), None);
    assert_eq!(parse_usize("+"), None);
    assert_eq!(parse_usize("4a"), None);

    assert_eq!(parse_i64("-1"), Some(-1));
    assert_eq!(parse_i64("-9223372036854775808"), Some(i64::MIN));
    assert_eq!(parse_i64("9223372036854775807"), Some(i64::MAX));
    assert_eq!(parse_i64("9223372036854775808"), None);
    assert_eq!(parse_i64("-9223372036854775809"), None);
    assert_eq!(parse_i64("007"), Some(7));
}

#[test]
fn image_sizes_decode_case_sensitively() {
    let img = normalize_image(RawImage {
        url: "http://example.com/a.png".to_string(),
        size: "extralarge".to_string(),
    })
    .unwrap();
    assert_eq!(img.size, ImageSize::ExtraLarge);
    assert_eq!(img.url, Some("http://example.com/a.png".to_string()));

    let absent_url = normalize_image(RawImage {
        url: String::new(),
        size: "small".to_string(),
    })
    .unwrap();
    assert_eq!(absent_url.url, None);

    let bad = normalize_image(RawImage {
        url: String::new(),
        size: "Small".to_string(),
    });
    assert_eq!(bad.unwrap_err(), NormalizeError::BadImageSize);
}

fn raw_track(name: &str, mbid: &str, uts: Option<&str>, now_playing: Option<&str>) -> RawTrack {
    RawTrack {
        attributes: now_playing.map(|v| RawTrackAttributes {
            now_playing: v.to_string(),
        }),
        artist: RawArtist {
            name: "The Artist".to_string(),
            mbid: "".to_string(),
        },
        album: None,
        name: name.to_string(),
        image: vec![],
        date: uts.map(|u| RawDate {
            pretty_string: "whenever".to_string(),
            uts: u.to_string(),
        }),
        url: "http://example.com/t".to_string(),
        mbid: mbid.to_string(),
    }
}

#[test]
fn track_normalization_resolves_optional_fields() {
    let t = normalize_track(raw_track("Song", "", Some("1700000000"), None)).unwrap();
    assert_eq!(t.name, "Song");
    assert_eq!(t.mbid, None);
    assert_eq!(t.artist.mbid, None);
    assert!(t.album.is_none());
    assert_eq!(t.date.as_ref().unwrap().timestamp, 1700000000);
    assert!(t.attributes.is_none());

    let playing = normalize_track(raw_track("Now", "m1", None, Some("true"))).unwrap();
    assert!(playing.attributes.unwrap().now_playing);
    assert_eq!(playing.mbid, Some("m1".to_string()));
}

#[test]
fn one_bad_record_does_not_abort_the_page() {
    let raws = vec![
        raw_track("Good", "", Some("1700000000"), None),
        raw_track("Bad", "", Some("not-a-number"), None),
        raw_track("AlsoGood", "", None, None),
    ];
    let (tracks, errors) = normalize_tracks(raws);
    assert_eq!(tracks.len(), 2);
    assert_eq!(tracks[0].name, "Good");
    assert_eq!(tracks[1].name, "AlsoGood");
    assert_eq!(errors, vec![NormalizeError::BadTimestamp]);
}

#[test]
fn request_attributes_parse_or_fail_the_page() {
    let attrs = normalize_request_attributes(RawRequestAttributes {
        page: "1".to_string(),
        per_page: "200".to_string(),
        total: "250".to_string(),
        total_pages: "2".to_string(),
        username: "alice".to_string(),
    })
    .unwrap();
    assert_eq!(attrs.page, 1);
    assert_eq!(attrs.per_page, 200);
    assert_eq!(attrs.total, 250);
    assert_eq!(attrs.total_pages, 2);
    assert_eq!(attrs.username, "alice");

    let bad = normalize_request_attributes(RawRequestAttributes {
        page: "1".to_string(),
        per_page: "200".to_string(),
        total: "many".to_string(),
        total_pages: "2".to_string(),
        username: "alice".to_string(),
    });
    assert_eq!(bad.unwrap_err(), NormalizeError::BadNumber);
}
