use ement_e2ee::crypto::rooms::{
    encryption_fetched, history_visibility_or_fetch, is_room_encrypted, joined_members,
    members_fetched, room_settings_from_content, scan_state_events, settings_looked_up,
    visibility_fetched, EncryptionCheck, MembersCheck, RoomTracker, VisibilityCheck,
    MEMBER_CACHE_TTL,
};
use ement_e2ee::failure::Failure;
use ement_e2ee::json::Json;
use ement_e2ee::json_text::parse_json;
use ement_e2ee::wire::Reply;

fn json(text: &str) -> Json {
    match parse_json(text.as_bytes()) {
        Ok(j) => j,
        Err(e) => panic!("{e}"),
    }
}

fn reply(status: u16, body: &str) -> Result<Reply, Failure> {
    Ok(Reply { status, body: json(body) })
}

#[test]
fn parse_encryption_content() {
    let settings = room_settings_from_content(&json(
        r#"{"algorithm": "m.megolm.v1.aes-sha2", "rotation_period_ms": 604800000, "rotation_period_msgs": 100}"#,
    ))
    .unwrap();
    assert_eq!(settings.algorithm, "m.megolm.v1.aes-sha2");
    assert_eq!(settings.session_rotation_period, Some(604800000));
    assert_eq!(settings.session_rotation_period_messages, Some(100));

    // Defaults: only algorithm is required.
    let settings = room_settings_from_content(&json(r#"{"algorithm": "m.megolm.v1.aes-sha2"}"#)).unwrap();
    assert_eq!(settings.session_rotation_period, None);

    // Missing algorithm -> None.
    assert!(room_settings_from_content(&json("{}")).is_none());
}

#[test]
fn encryption_is_found_out() {
    let mut t = RoomTracker::new();
    assert!(matches!(is_room_encrypted(&t, "!r:x"), EncryptionCheck::LookUpSettings));
    assert!(matches!(settings_looked_up("!r:x", Ok(true)), Ok(EncryptionCheck::Answer(true))));
    assert!(settings_looked_up("!r:x", Err(Failure::new("store"))).is_err());
    match settings_looked_up("!r:x", Ok(false)) {
        Ok(EncryptionCheck::Ask(req)) => {
            assert_eq!(req.method, "GET");
            assert_eq!(req.path, "/_matrix/client/v3/rooms/%21r%3Ax/state/m.room.encryption");
            assert!(req.body.is_none());
        }
        _ => panic!("no request"),
    }
    // Not found: the room is unencrypted, and known to be from then on.
    let r = encryption_fetched(&mut t, "!r:x", reply(404, "{}"));
    assert!(matches!(r, Ok(EncryptionCheck::Answer(false))));
    assert!(matches!(is_room_encrypted(&t, "!r:x"), EncryptionCheck::Answer(false)));
    // An encryption event ends that.
    let events = vec![json(
        r#"{"type":"m.room.encryption","state_key":"","content":{"algorithm":"m.megolm.v1.aes-sha2"}}"#,
    )];
    assert_eq!(scan_state_events(&mut t, "!r:x", &events).len(), 1);
    assert!(matches!(is_room_encrypted(&t, "!r:x"), EncryptionCheck::LookUpSettings));
    // Found: the settings are handed out.
    let r = encryption_fetched(&mut t, "!r:x", reply(200, r#"{"algorithm":"a"}"#));
    assert!(matches!(r, Ok(EncryptionCheck::Encrypted(s)) if s.algorithm == "a"));
    // Anything else says nothing.
    match encryption_fetched(&mut t, "!r:x", reply(500, r#"{"a":1}"#)) {
        Err(f) => assert_eq!(
            f.message(),
            "failed to fetch m.room.encryption state: 500 Internal Server Error {\"a\":1}"
        ),
        Ok(_) => panic!("answered"),
    }
    match encryption_fetched(&mut t, "!r:x", reply(200, "{}")) {
        Err(f) => assert_eq!(f.message(), "malformed m.room.encryption content: {}"),
        Ok(_) => panic!("answered"),
    }
    assert!(encryption_fetched(&mut t, "!r:x", Err(Failure::new("down"))).is_err());
}

#[test]
fn members_are_cached_for_ten_minutes() {
    let mut t = RoomTracker::new();
    match joined_members(&t, "!r:x", 0) {
        MembersCheck::Ask(req) => {
            assert_eq!(req.path, "/_matrix/client/v3/rooms/%21r%3Ax/joined_members")
        }
        MembersCheck::Members(_) => panic!("cached"),
    }
    let body = r#"{"joined":{"@b:x":{},"nobody":{},"@a:x":{}}}"#;
    let members = members_fetched(&mut t, "!r:x", 1000, reply(200, body)).ok().unwrap();
    assert_eq!(members, vec!["@a:x", "@b:x"]);
    assert_eq!(t.cached_members("!r:x", 1000), Some(members.clone()));
    assert_eq!(t.cached_members("!r:x", 999 + MEMBER_CACHE_TTL), Some(members));
    assert_eq!(t.cached_members("!r:x", 1000 + MEMBER_CACHE_TTL), None);
    assert_eq!(t.cached_members("!other:x", 1000), None);
    t.cache_members("!r:x", vec!["@c:x".to_owned()], 5);
    let events = vec![json(r#"{"type":"m.room.member","state_key":"@d:x","content":{}}"#)];
    assert!(scan_state_events(&mut t, "!r:x", &events).is_empty());
    assert_eq!(t.cached_members("!r:x", 5), None);
    match members_fetched(&mut t, "!r:x", 0, reply(200, r#"{"joined":{}}"#)) {
        Err(f) => assert_eq!(f.message(), "joined_members returned no members for !r:x"),
        Ok(_) => panic!("members"),
    }
    match members_fetched(&mut t, "!r:x", 0, reply(403, "{}")) {
        Err(f) => assert_eq!(f.message(), "joined_members failed: 403 Forbidden {}"),
        Ok(_) => panic!("members"),
    }
}

#[test]
fn visibility_is_tracked_or_fetched() {
    let mut t = RoomTracker::new();
    assert!(matches!(
        history_visibility_or_fetch(&t, "!r:x"),
        VisibilityCheck::Ask(req)
            if req.path == "/_matrix/client/v3/rooms/%21r%3Ax/state/m.room.history_visibility"
    ));
    assert_eq!(visibility_fetched(&mut t, "!q:x", Err(Failure::new("down"))), "shared");
    let v = visibility_fetched(&mut t, "!r:x", reply(200, r#"{"history_visibility":"joined"}"#));
    assert_eq!(v, "joined");
    assert!(matches!(
        history_visibility_or_fetch(&t, "!r:x"),
        VisibilityCheck::Known(v) if v == "joined"
    ));
    let events = vec![json(
        r#"{"type":"m.room.history_visibility","state_key":"","content":{"history_visibility":"invited"}}"#,
    )];
    scan_state_events(&mut t, "!r:x", &events);
    assert_eq!(t.history_visibility("!r:x"), Some("invited".to_owned()));
    // Without a state key it is no state event.
    let events = vec![json(
        r#"{"type":"m.room.history_visibility","content":{"history_visibility":"shared"}}"#,
    )];
    scan_state_events(&mut t, "!r:x", &events);
    assert_eq!(t.history_visibility("!r:x"), Some("invited".to_owned()));
}

#[test]
fn sessions_are_claimed_once() {
    let mut t = RoomTracker::new();
    assert!(t.claim_session("s"));
    assert!(!t.claim_session("s"));
    t.release_session("s");
    assert!(t.claim_session("s"));
}
