use hatchery::api::LastFM;

fn pairs(v: &[(&str, &str)]) -> Vec<(String, String)> {
    v.iter().map(|(k, val)| (k.to_string(), val.to_string())).collect()
}

#[test]
fn signature_is_permutation_invariant() {
    let client = LastFM::new("key123", "secret456");
    let a = pairs(&[
        ("method", "auth.getMobileSession"),
        ("username", "alice"),
        ("password", "hunter2"),
        ("api_key", "key123"),
    ]);
    let b = pairs(&[
        ("password", "hunter2"),
        ("api_key", "key123"),
        ("method", "auth.getMobileSession"),
        ("username", "alice"),
    ]);
    assert_eq!(client.get_signature(a), client.get_signature(b));
}

#[test]
fn signature_matches_reference_digest() {
    let client = LastFM::new("key123", "secret456");
    let query = pairs(&[
        ("username", "alice"),
        ("method", "auth.getMobileSession"),
        ("api_key", "key123"),
    ]);
    // keys sorted: api_key, method, username; key and value concatenated,
    // secret appended, digested, rendered as lower-case hex
    let canonical =
        "api_keykey123methodauth.getMobileSessionusernamealicesecret456";
    let expected = format!("{:x}", md5::compute(canonical.as_bytes()));
    assert_eq!(client.get_signature(query), expected);
}

#[test]
fn signature_depends_on_secret() {
    let a = LastFM::new("key123", "secret456");
    let b = LastFM::new("key123", "othersecret");
    let q = pairs(&[("user", "alice")]);
    assert_ne!(a.get_signature(q.clone()), b.get_signature(q));
}

#[test]
fn build_query_appends_method_key_signature_and_format() {
    let client = LastFM::new("key123", "secret456");
    let q = pairs(&[("user", "alice"), ("limit", "200"), ("page", "1")]);
    let full = client.build_query("user.getRecentTracks", q);
    assert_eq!(full.len(), 7);
    assert_eq!(full[3], ("method".to_string(), "user.getRecentTracks".to_string()));
    assert_eq!(full[4], ("api_key".to_string(), "key123".to_string()));
    assert_eq!(full[5].0, "api_sig");
    assert_eq!(full[6], ("format".to_string(), "json".to_string()));
    // the signature covers everything before it, and not the format marker
    let signed: Vec<(String, String)> = full[..5].to_vec();
    assert_eq!(full[5].1, client.get_signature(signed));
}

#[test]
fn page_queries_carry_user_limit_and_page() {
    let q = hatchery::api::recent_tracks_query("alice", 3);
    assert_eq!(
        q,
        pairs(&[("user", "alice"), ("limit", "200"), ("page", "3")])
    );
    let q = hatchery::api::loved_tracks_query("bob", 12);
    assert_eq!(
        q,
        pairs(&[("user", "bob"), ("limit", "200"), ("page", "12")])
    );
    let q = hatchery::api::friends_query("carol", 1);
    assert_eq!(q, pairs(&[("user", "carol"), ("limit", "50"), ("page", "1")]));
}

#[test]
fn auth_query_and_session() {
    let q = hatchery::api::auth_query("alice", "hunter2");
    assert_eq!(
        q,
        pairs(&[("username", "alice"), ("password", "hunter2")])
    );
    let mut client = LastFM::new("key123", "secret456");
    assert_eq!(
        client.apply_session(None),
        Err(hatchery::api::LastFMError::AuthError)
    );
    assert_eq!(client.apply_session(Some("token".to_string())), Ok(()));
    assert_eq!(client.session_key, Some("token".to_string()));
}
