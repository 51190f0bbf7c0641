use hatchery::api::{Friend, Image, ImageSize, RegisterDate, TrackAttributes};
use hatchery::normalize::{normalize_track, RawArtist, RawDate, RawImage, RawTrack};
use hatchery::serialize::{friends_json, scrobbles_json};

fn raw_track_with_mbid(mbid: &str) -> RawTrack {
    RawTrack {
        attributes: None,
        artist: RawArtist {
            name: "Quote \"Artist\"".to_string(),
            mbid: "artist-mb".to_string(),
        },
        album: None,
        name: "Line\nBreak".to_string(),
        image: vec![RawImage {
            url: "".to_string(),
            size: "large".to_string(),
        }],
        date: Some(RawDate {
            pretty_string: "14 Nov 2023, 22:13".to_string(),
            uts: "1700000000".to_string(),
        }),
        url: "http://example.com/t".to_string(),
        mbid: mbid.to_string(),
    }
}

#[test]
fn empty_document_is_an_empty_array() {
    assert_eq!(scrobbles_json(vec![]), "[]");
}

#[test]
fn empty_mbid_round_trips_as_absent() {
    // the identifier arrives as an empty string, normalizes to absent,
    // and the exported document carries no such key at all
    let track = normalize_track(raw_track_with_mbid("")).unwrap();
    assert_eq!(track.mbid, None);
    let doc = scrobbles_json(vec![track]);
    let value: serde_json::Value = serde_json::from_str(&doc).unwrap();
    let record = &value.as_array().unwrap()[0];
    assert!(record.get("mbid").is_none());
    // importing the document finds the field absent, not empty
    let reimported = record.get("mbid").and_then(|v| v.as_str());
    assert_eq!(reimported, None);
}

#[test]
fn present_fields_survive_export_with_escaping() {
    let track = normalize_track(raw_track_with_mbid("track-mb")).unwrap();
    let doc = scrobbles_json(vec![track]);
    let value: serde_json::Value = serde_json::from_str(&doc).unwrap();
    let record = &value.as_array().unwrap()[0];
    assert_eq!(record["mbid"], "track-mb");
    assert_eq!(record["name"], "Line\nBreak");
    assert_eq!(record["url"], "http://example.com/t");
    assert_eq!(record["artist"]["name"], "Quote \"Artist\"");
    assert_eq!(record["artist"]["mbid"], "artist-mb");
    assert!(record.get("album").is_none());
    assert!(record.get("attributes").is_none());
    assert_eq!(record["date"]["timestamp"], 1700000000i64);
    assert_eq!(record["date"]["pretty_string"], "14 Nov 2023, 22:13");
    let images = record["image"].as_array().unwrap();
    assert_eq!(images.len(), 1);
    assert!(images[0].get("url").is_none());
    assert_eq!(images[0]["size"], "large");
}

#[test]
fn friend_document_carries_subscriber_and_registration() {
    let friend = Friend {
        name: "bob".to_string(),
        image: vec![Image {
            url: Some("http://example.com/i.png".to_string()),
            size: ImageSize::Small,
        }],
        country: "Nowhere".to_string(),
        url: "http://example.com/u/bob".to_string(),
        subscriber: true,
        real_name: None,
        registered: RegisterDate {
            pretty_string: "2009-01-01 00:00".to_string(),
            timestamp: 1230768000,
        },
    };
    let doc = friends_json(&vec![friend]);
    let value: serde_json::Value = serde_json::from_str(&doc).unwrap();
    let record = &value.as_array().unwrap()[0];
    assert_eq!(record["name"], "bob");
    assert_eq!(record["subscriber"], true);
    assert!(record.get("real_name").is_none());
    assert_eq!(record["registered"]["timestamp"], 1230768000i64);
    assert_eq!(record["image"][0]["url"], "http://example.com/i.png");
    assert_eq!(record["image"][0]["size"], "small");
    assert_eq!(record["country"], "Nowhere");
}

#[test]
fn negative_timestamps_render_as_numbers() {
    let mut t = normalize_track(raw_track_with_mbid("m")).unwrap();
    if let Some(d) = &mut t.date {
        d.timestamp = -62135596800;
    }
    let doc = scrobbles_json(vec![t]);
    let value: serde_json::Value = serde_json::from_str(&doc).unwrap();
    assert_eq!(value[0]["date"]["timestamp"], -62135596800i64);
}

#[test]
fn pretty_document_text_is_exact() {
    let friend = Friend {
        name: "bob".to_string(),
        image: vec![],
        country: "Nowhere".to_string(),
        url: "u".to_string(),
        subscriber: false,
        real_name: None,
        registered: RegisterDate {
            pretty_string: "then".to_string(),
            timestamp: 5,
        },
    };
    let expected = "[\n  {\n    \"name\": \"bob\",\n    \"image\": [],\n    \"country\": \"Nowhere\",\n    \"url\": \"u\",\n    \"subscriber\": false,\n    \"registered\": {\n      \"pretty_string\": \"then\",\n      \"timestamp\": 5\n    }\n  }\n]";
    assert_eq!(friends_json(&vec![friend]), expected);
}

#[test]
fn now_playing_records_are_never_exported() {
    // an in-flight record in the batch contributes nothing to the document
    let completed = normalize_track(raw_track_with_mbid("m1")).unwrap();
    let mut in_flight = normalize_track(raw_track_with_mbid("m2")).unwrap();
    in_flight.attributes = Some(TrackAttributes { now_playing: true });
    in_flight.date = None;
    let doc = scrobbles_json(vec![completed, in_flight]);
    let value: serde_json::Value = serde_json::from_str(&doc).unwrap();
    let records = value.as_array().unwrap();
    assert_eq!(records.len(), 1);
    assert_eq!(records[0]["mbid"], "m1");

    // a batch of nothing but in-flight records exports an empty document
    let mut only = normalize_track(raw_track_with_mbid("m3")).unwrap();
    only.attributes = Some(TrackAttributes { now_playing: true });
    assert_eq!(scrobbles_json(vec![only]), "[]");
}
