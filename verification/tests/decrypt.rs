use ement_e2ee::crypto::decrypt::{
    decrypt_event, decrypt_events, decrypt_step, decrypted_event, maybe_request_room_key,
    process_context_body, process_event_body, process_messages_body, process_sync_body,
    room_key_requested, scan_history_state, scan_sync_body, DecryptEvent, DecryptState,
    DecryptStep, Decryption,
};
use ement_e2ee::crypto::rooms::RoomTracker;
use ement_e2ee::json::Json;
use ement_e2ee::json_text::{parse_json, write_json};
use ement_e2ee::proxy::intercept::{
    forward_get_json, handle_history_get, history_events, raw_response, room_of_history,
    scan_history, Forwarded, HistoryOutcomes,
};
use ement_e2ee::proxy::routes::Route;
use ement_e2ee::string_map::StringMap;

fn json(text: &str) -> Json {
    match parse_json(text.as_bytes()) {
        Ok(j) => j,
        Err(e) => panic!("{e}"),
    }
}

fn plain() -> Decryption {
    decrypted_event(r#"{"type":"m.room.message","content":{"body":"hi"}}"#, json(r#"{"ok":1}"#))
}

fn utd() -> Decryption {
    Decryption::UnableToDecrypt {
        reason: "MissingKey".to_owned(),
        session_id: Some("sess".to_owned()),
    }
}

const ENCRYPTED: &str = r#"{"type":"m.room.encrypted","event_id":"$e","sender":"@a:x","origin_server_ts":5,"room_id":"!r:x","unsigned":{"transaction_id":"t"}}"#;

#[test]
fn decrypted_events_take_the_place() {
    let e = decrypt_event(&json(ENCRYPTED), &plain());
    assert_eq!(
        write_json(&e),
        r#"{"content":{"body":"hi"},"type":"m.room.message","unsigned":{"ement_e2ee":{"decrypted":true,"encryption_info":{"ok":1}},"transaction_id":"t"}}"#
    );
    // What the decrypted event says wins.
    let inner = decrypted_event(
        r#"{"type":"x","unsigned":{"transaction_id":"own","age":1}}"#,
        Json::Null,
    );
    let e = decrypt_event(&json(ENCRYPTED), &inner);
    assert_eq!(
        write_json(&e),
        r#"{"type":"x","unsigned":{"age":1,"ement_e2ee":{"decrypted":true,"encryption_info":null},"transaction_id":"own"}}"#
    );
    // Without unsigned data in the envelope nothing is added.
    let e = decrypt_event(&json(r#"{"type":"m.room.encrypted"}"#), &plain());
    assert_eq!(
        write_json(&e),
        r#"{"content":{"body":"hi"},"type":"m.room.message","unsigned":{}}"#
    );
}

#[test]
fn undecryptable_events_get_a_placeholder() {
    let e = decrypt_event(&json(ENCRYPTED), &utd());
    assert_eq!(
        write_json(&e),
        "{\"content\":{\"body\":\"🔒 [undecryptable: MissingKey] If keys arrive later, close and reopen the room to retry.\",\"msgtype\":\"m.text\"},\"event_id\":\"$e\",\"origin_server_ts\":5,\"room_id\":\"!r:x\",\"sender\":\"@a:x\",\"type\":\"m.room.message\",\"unsigned\":{\"ement_e2ee\":{\"session_id\":\"sess\",\"utd\":true},\"transaction_id\":\"t\"}}"
    );
}

#[test]
fn other_events_are_kept() {
    let text = r#"{"content":{},"type":"m.room.message"}"#;
    assert_eq!(write_json(&decrypt_event(&json(text), &utd())), text);
    let e = decrypt_event(&json(ENCRYPTED), &Decryption::Failed);
    assert_eq!(e.get_text("type"), Some("m.room.encrypted".to_owned()));
    assert!(matches!(decrypted_event("[1]", Json::Null), Decryption::Failed));
    assert!(matches!(decrypted_event("{", Json::Null), Decryption::Failed));
    let events = vec![json(text), json(ENCRYPTED)];
    let out = decrypt_events(&events, &vec![Decryption::Failed]);
    assert_eq!(out.len(), 2);
    assert_eq!(write_json(&out[0]), text);
    assert_eq!(out[1].get_text("type"), Some("m.room.encrypted".to_owned()));
}

#[test]
fn sync_bodies_are_rewritten() {
    let text = format!(
        r#"{{"next_batch":"n","rooms":{{"join":{{"!r:x":{{"state":{{"events":[{{"type":"m.room.encryption","state_key":"","content":{{"algorithm":"m.megolm.v1.aes-sha2"}}}}]}},"timeline":{{"events":[{ENCRYPTED},{{"type":"m.room.encryption","state_key":"","content":{{"algorithm":"b"}}}}]}}}},"odd":{{"timeline":{{"events":[{ENCRYPTED}]}}}}}},"leave":{{"!l:x":{{"timeline":{{"events":[{ENCRYPTED}]}}}}}}}}}}"#
    );
    let mut body = json(&text);
    let mut t = RoomTracker::new();
    t.mark_unencrypted("!r:x");
    let plan = scan_sync_body(&mut t, &body);
    assert!(!t.is_known_unencrypted("!r:x"));
    assert_eq!(plan.joined.len(), 1);
    assert_eq!(plan.joined[0].room_id, "!r:x");
    assert_eq!(plan.joined[0].settings.len(), 2);
    assert_eq!(plan.joined[0].settings[1].algorithm, "b");
    assert_eq!(plan.joined[0].events.len(), 2);
    assert_eq!(plan.left.len(), 1);

    let mut joined: StringMap<Vec<Decryption>> = StringMap::new();
    joined.insert("!r:x".to_owned(), vec![plain(), Decryption::Failed]);
    joined.insert("odd".to_owned(), vec![plain()]);
    let mut left: StringMap<Vec<Decryption>> = StringMap::new();
    left.insert("!l:x".to_owned(), vec![utd()]);
    process_sync_body(&mut body, &joined, &left);
    let out = write_json(&body);
    let rooms = body.get("rooms").unwrap();
    let first = |section: &str, room: &str| {
        let events = rooms.get2(section, room).unwrap().get("timeline").unwrap();
        events.get_list("events").unwrap()[0].get_text("type")
    };
    assert_eq!(first("join", "!r:x"), Some("m.room.message".to_owned()));
    assert_eq!(first("join", "odd"), Some("m.room.encrypted".to_owned()));
    assert_eq!(first("leave", "!l:x"), Some("m.room.message".to_owned()));
    assert!(out.contains("undecryptable: MissingKey"));
    assert_eq!(body.get_text("next_batch"), Some("n".to_owned()));
    // A body without encrypted events stays as it is.
    let text = r#"{"rooms":{"join":{"!r:x":{"timeline":{"events":[{"type":"a"}]}}}}}"#;
    let mut body = json(text);
    process_sync_body(&mut body, &joined, &left);
    assert_eq!(write_json(&body), text);
}

#[test]
fn history_bodies_are_rewritten() {
    let mut body = json(&format!(r#"{{"chunk":[{ENCRYPTED}],"start":"s"}}"#));
    process_messages_body(&mut body, &vec![plain()]);
    assert_eq!(body.get_list("chunk").unwrap()[0].get_text("type"), Some("m.room.message".to_owned()));
    assert_eq!(body.get_text("start"), Some("s".to_owned()));
    let mut body = json(&format!(
        r#"{{"events_before":[{ENCRYPTED}],"events_after":[{ENCRYPTED}],"event":{ENCRYPTED}}}"#
    ));
    process_context_body(&mut body, &vec![plain()], &vec![Decryption::Failed], &utd());
    let kind = |k: &str| body.get_list(k).unwrap()[0].get_text("type").unwrap();
    assert_eq!(kind("events_before"), "m.room.message");
    assert_eq!(kind("events_after"), "m.room.encrypted");
    assert_eq!(body.get2_text("event", "type"), Some("m.room.message".to_owned()));
    let mut body = json(ENCRYPTED);
    process_event_body(&mut body, &plain());
    assert_eq!(body.get2_text("content", "body"), Some("hi".to_owned()));
    let mut t = RoomTracker::new();
    let settings = scan_history_state(
        &mut t,
        "!r:x",
        &json(r#"{"state":[{"type":"m.room.encryption","state_key":"","content":{"algorithm":"a"}}]}"#),
    );
    assert_eq!(settings.len(), 1);
    assert!(scan_history_state(&mut t, "!r:x", &Json::Null).is_empty());
}

#[test]
fn history_is_fetched_and_answered() {
    let route = Route::Messages { room_id: "!r:x".to_owned() };
    assert_eq!(room_of_history(&route), Some("!r:x".to_owned()));
    assert_eq!(room_of_history(&Route::Messages { room_id: "r".to_owned() }), None);
    assert_eq!(room_of_history(&Route::Sync), None);
    let bytes = format!(r#"{{"chunk":[{ENCRYPTED}]}}"#).into_bytes();
    let (ct, body) = match forward_get_json(200, Some(b"application/json".to_vec()), bytes) {
        Ok(Forwarded::Body { content_type, body }) => (content_type, body),
        _ => panic!("no body"),
    };
    let events = history_events(&route, &body);
    assert_eq!(events.first.len(), 1);
    assert!(events.second.is_empty());
    assert!(events.event.is_none());
    let outcomes =
        HistoryOutcomes { first: vec![plain()], second: vec![], event: Decryption::Failed };
    let r = handle_history_get(&route, ct, body, &outcomes).ok().unwrap();
    assert_eq!(r.status, 200);
    assert_eq!(r.headers, vec![("content-type".to_owned(), b"application/json".to_vec())]);
    assert!(String::from_utf8(r.body).unwrap().contains(r#""body":"hi""#));
    // Refusals are handed on; bodies that are no JSON are an error.
    assert!(matches!(
        forward_get_json(403, None, b"no".to_vec()),
        Ok(Forwarded::Refused(r)) if r.status == 403 && r.body == b"no"
    ));
    match forward_get_json(200, None, b"no".to_vec()) {
        Err(e) => assert_eq!(e.message(), "upstream response is not valid JSON"),
        Ok(_) => panic!("body"),
    }
    let context = Route::Context { room_id: "!r:x".to_owned() };
    let events = history_events(
        &context,
        &json(r#"{"events_before":[1],"events_after":[2,3],"event":{}}"#),
    );
    assert_eq!((events.first.len(), events.second.len()), (1, 2));
    assert!(events.event.is_some());
    match raw_response(99, None, vec![]) {
        Err(e) => assert_eq!(e.message(), "invalid status code"),
        Ok(_) => panic!("response"),
    }
}

#[test]
fn room_keys_are_asked_for_once() {
    let mut t = RoomTracker::new();
    assert_eq!(maybe_request_room_key(&mut t, &utd()), Some("sess".to_owned()));
    assert_eq!(maybe_request_room_key(&mut t, &utd()), None);
    room_key_requested(&mut t, "sess", true);
    assert_eq!(maybe_request_room_key(&mut t, &utd()), None);
    room_key_requested(&mut t, "sess", false);
    assert_eq!(maybe_request_room_key(&mut t, &utd()), Some("sess".to_owned()));
    assert_eq!(maybe_request_room_key(&mut t, &plain()), None);
    let nameless = Decryption::UnableToDecrypt { reason: String::new(), session_id: None };
    assert_eq!(maybe_request_room_key(&mut t, &nameless), None);
}

#[test]
fn long_room_ids_are_room_ids() {
    let room_id = format!("!{}:x", "r".repeat(300));
    let route = Route::Messages { room_id: room_id.clone() };
    assert_eq!(room_of_history(&route), Some(room_id));
}

#[test]
fn plain_contexts_are_kept() {
    let text = r#"{"event":{"type":"a"},"events_after":[{"type":"c"}],"events_before":[{"type":"b"}],"start":"s"}"#;
    let mut body = json(text);
    process_context_body(&mut body, &vec![plain()], &vec![utd()], &plain());
    assert_eq!(write_json(&body), text);
}

#[test]
fn history_brings_room_state() {
    let body = json(
        r#"{"state":[{"type":"m.room.encryption","state_key":"","content":{"algorithm":"a"}}]}"#,
    );
    let room_id = || "!r:x".to_owned();
    let found = |route: Route| scan_history(&mut RoomTracker::new(), &route, &body).len();
    assert_eq!(found(Route::Messages { room_id: room_id() }), 1);
    assert_eq!(found(Route::Context { room_id: room_id() }), 1);
    assert_eq!(found(Route::RoomEvent { room_id: room_id() }), 0);
    assert_eq!(found(Route::Messages { room_id: "r".to_owned() }), 0);
}

const KEY: &str = r#"{"hashes":{"sha256":"ANdt819a8bZl4jKy3Z+jcqtiNICa2y0AW4BBJ/iQRAU"},"iv":"i0DovxYdJEcAAAAAAAAAAA","key":{"alg":"A256CTR","ext":true,"k":"Voq2nkPme_x8no5-Tjq_laDAdxE6iDbxnlQXxwFPgE4","key_ops":["decrypt","encrypt"],"kty":"oct"},"url":"mxc://x/y","v":"v2"}"#;

fn decrypt_run(t: &mut RoomTracker, event: &Json, happened: Vec<DecryptEvent>) -> DecryptStep {
    let mut state = DecryptState::Start;
    let mut last = DecryptStep::Stop;
    for h in happened {
        (state, last) = decrypt_step(t, event, state, h);
    }
    last
}

fn handed_out() -> DecryptEvent {
    DecryptEvent::Decrypted {
        event_json: format!(r#"{{"type":"m.room.message","content":{{"body":"b","file":{KEY}}}}}"#),
        encryption_info: Json::Null,
    }
}

#[test]
fn events_are_shown_once_their_keys_are_stored() {
    let mut t = RoomTracker::new();
    let event = json(ENCRYPTED);
    let begin = || vec![DecryptEvent::Begin];
    assert!(matches!(decrypt_run(&mut t, &event, begin()), DecryptStep::Decrypt));
    let noticed = || vec![DecryptEvent::Begin, handed_out(), DecryptEvent::Noticed];
    let mut first = noticed();
    first.truncate(2);
    assert!(matches!(decrypt_run(&mut t, &event, first), DecryptStep::Notice));
    match decrypt_run(&mut t, &event, noticed()) {
        DecryptStep::Store { file: Some(row), thumbnail: None } => {
            assert_eq!(row.mxc, "mxc://x/y");
            assert_eq!(row.filename, Some("b".to_owned()));
        }
        _ => panic!("nothing to store"),
    }
    for (file, has_url) in [(true, true), (false, false)] {
        let mut all = noticed();
        all.push(DecryptEvent::Stored { file, thumbnail: false });
        match decrypt_run(&mut t, &event, all) {
            DecryptStep::Finish { outcome, ask_for: None } => {
                let shown = decrypt_event(&event, &outcome);
                let url = shown.get2_text("content", "url");
                assert_eq!(url, if has_url { Some("mxc://x/y".to_owned()) } else { None });
                assert_eq!(shown.get2("content", "file").is_none(), has_url);
            }
            _ => panic!("not finished"),
        }
    }
    // Nothing is shown before the keys are stored.
    let early = vec![
        DecryptEvent::Begin,
        handed_out(),
        DecryptEvent::Stored { file: true, thumbnail: true },
    ];
    assert!(matches!(decrypt_run(&mut t, &event, early), DecryptStep::Stop));
}

#[test]
fn decryptions_that_fail_are_told_apart() {
    let mut t = RoomTracker::new();
    let event = json(ENCRYPTED);
    let lacks_key = || {
        vec![
            DecryptEvent::Begin,
            DecryptEvent::UnableToDecrypt {
                reason: "MissingKey".to_owned(),
                session_id: Some("sess".to_owned()),
            },
        ]
    };
    assert!(matches!(
        decrypt_run(&mut t, &event, lacks_key()),
        DecryptStep::Finish { outcome: Decryption::UnableToDecrypt { .. }, ask_for: Some(s) }
            if s == "sess"
    ));
    assert!(matches!(
        decrypt_run(&mut t, &event, lacks_key()),
        DecryptStep::Finish { outcome: Decryption::UnableToDecrypt { .. }, ask_for: None }
    ));
    room_key_requested(&mut t, "sess", false);
    assert!(matches!(
        decrypt_run(&mut t, &event, lacks_key()),
        DecryptStep::Finish { ask_for: Some(_), .. }
    ));
    let no_event = DecryptEvent::Decrypted {
        event_json: "[1]".to_owned(),
        encryption_info: Json::Null,
    };
    for happened in [no_event, DecryptEvent::Failed] {
        assert!(matches!(
            decrypt_run(&mut t, &event, vec![DecryptEvent::Begin, happened]),
            DecryptStep::Finish { outcome: Decryption::Failed, ask_for: None }
        ));
    }
    let plain = json(r#"{"type":"m.room.message"}"#);
    assert!(matches!(
        decrypt_run(&mut t, &plain, vec![DecryptEvent::Begin]),
        DecryptStep::Finish { outcome: Decryption::Failed, ask_for: None }
    ));
}
