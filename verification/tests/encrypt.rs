use ement_e2ee::crypto::encrypt::{
    encrypt_content, encryption_settings, handle_send, room_message_sent,
    send_room_message_request, EncryptEvent, EncryptRequest, EncryptState, EncryptStep, SendEvent,
    SendRequest, SendState, SendStep, SharingStrategy,
};
use ement_e2ee::crypto::machine::RoomMessageRequest;
use ement_e2ee::crypto::media::{encrypt_attachment, MediaEntry};
use ement_e2ee::crypto::rooms::RoomSettings;
use ement_e2ee::error::ProxyError;
use ement_e2ee::failure::Failure;
use ement_e2ee::json::Json;
use ement_e2ee::json_text::{parse_json, write_json};
use ement_e2ee::wire::Reply;

fn json(text: &str) -> Json {
    match parse_json(text.as_bytes()) {
        Ok(j) => j,
        Err(e) => panic!("{e}"),
    }
}

fn request(room: &str, kind: &str) -> SendRequest {
    SendRequest {
        room_id: room.to_owned(),
        event_type: kind.to_owned(),
        txn_id: "t/1".to_owned(),
        path: "/_matrix/client/r0/rooms/r/send/k/t?x=1".to_owned(),
    }
}

fn run(req: &SendRequest, events: Vec<SendEvent>) -> (SendState, Vec<SendStep>) {
    let mut state = SendState::Start;
    let mut steps = Vec::new();
    for event in events {
        let (next, step) = handle_send(req, state, event);
        state = next;
        steps.push(step);
    }
    (state, steps)
}

#[test]
fn messages_to_encrypted_rooms_are_encrypted() {
    let req = request("!r:x", "m.room.message");
    let (state, mut steps) = run(
        &req,
        vec![
            SendEvent::Begin,
            SendEvent::Checked(Ok(true)),
            SendEvent::Body(Ok(br#"{"body":"hi"}"#.to_vec())),
            SendEvent::Entry(None),
            SendEvent::Encrypted(Ok(json(r#"{"ciphertext":"x"}"#))),
            SendEvent::Replied(Ok(Reply { status: 200, body: json(r#"{"event_id":"$e"}"#) })),
        ],
    );
    assert!(matches!(state, SendState::Done));
    match steps.pop() {
        Some(SendStep::Respond(Ok(r))) => {
            assert_eq!(r.status, 200);
            assert_eq!(r.body, br#"{"event_id":"$e"}"#);
            assert_eq!(r.headers, vec![("content-type".to_owned(), b"application/json".to_vec())]);
        }
        _ => panic!("no response"),
    }
    match steps.pop() {
        Some(SendStep::Forward(r)) => {
            assert_eq!(r.method, "PUT");
            assert_eq!(r.path, "/_matrix/client/v3/rooms/%21r%3Ax/send/m.room.encrypted/t%2F1");
            assert_eq!(write_json(&r.body.unwrap()), r#"{"ciphertext":"x"}"#);
        }
        _ => panic!("not forwarded"),
    }
    assert!(matches!(steps.pop(), Some(SendStep::Encrypt(c)) if write_json(&c) == r#"{"body":"hi"}"#));
    assert!(matches!(steps.pop(), Some(SendStep::LookUp(None))));
    assert!(matches!(steps.pop(), Some(SendStep::ReadBody)));
    assert!(matches!(steps.pop(), Some(SendStep::CheckEncryption)));
}

#[test]
fn messages_to_unencrypted_rooms_go_out_as_they_are() {
    let req = request("!r:x", "m.room.message");
    let (_, mut steps) = run(
        &req,
        vec![
            SendEvent::Begin,
            SendEvent::Checked(Ok(false)),
            SendEvent::Body(Ok(br#"{"body":"hi"}"#.to_vec())),
            SendEvent::Entry(None),
        ],
    );
    match steps.pop() {
        Some(SendStep::Forward(r)) => {
            assert_eq!(r.path, req.path);
            assert_eq!(write_json(&r.body.unwrap()), r#"{"body":"hi"}"#);
        }
        _ => panic!("not forwarded"),
    }
}

#[test]
fn unknown_rooms_fail_closed() {
    let req = request("!r:x", "m.room.message");
    let (state, mut steps) =
        run(&req, vec![SendEvent::Begin, SendEvent::Checked(Err(Failure::new("down")))]);
    assert!(matches!(state, SendState::Done));
    match steps.pop() {
        Some(SendStep::Respond(Err(ProxyError::Internal(f)))) => {
            assert_eq!(f.chain_text(), "could not determine room encryption state: down")
        }
        _ => panic!("no error"),
    }
    let (_, step) = handle_send(&req, state, SendEvent::Body(Ok(b"{}".to_vec())));
    assert!(matches!(step, SendStep::Stop));
}

#[test]
fn some_requests_pass_through() {
    let (_, mut steps) = run(&request("!r:x", "m.room.encrypted"), vec![SendEvent::Begin]);
    assert!(matches!(steps.pop(), Some(SendStep::PassThrough)));
    let (_, mut steps) = run(&request("#alias:x", "m.room.message"), vec![SendEvent::Begin]);
    assert!(matches!(steps.pop(), Some(SendStep::PassThrough)));
}

#[test]
fn bad_bodies_and_failures_are_reported() {
    let req = request("!r:x", "m.room.message");
    let error = |events: Vec<SendEvent>| match run(&req, events).1.pop() {
        Some(SendStep::Respond(Err(e))) => e.message(),
        _ => panic!("no error"),
    };
    let checked = |b: bool| vec![SendEvent::Begin, SendEvent::Checked(Ok(b))];
    let mut events = checked(true);
    events.push(SendEvent::Body(Err("cut off".to_owned())));
    assert_eq!(error(events), "failed to read send body: cut off");
    let mut events = checked(true);
    events.push(SendEvent::Body(Ok(b"".to_vec())));
    assert_eq!(
        error(events),
        "send body is not JSON: EOF while parsing a value at line 1 column 0"
    );
    let mut events = checked(true);
    events.push(SendEvent::Body(Ok(b"{}".to_vec())));
    events.push(SendEvent::Entry(None));
    events.push(SendEvent::Encrypted(Err(Failure::new("x"))));
    assert_eq!(error(events), "failed to encrypt event");
    let mut events = checked(false);
    events.push(SendEvent::Body(Ok(b"{}".to_vec())));
    events.push(SendEvent::Entry(None));
    events.push(SendEvent::Replied(Err(Failure::new("x"))));
    assert_eq!(error(events), "failed to forward send");
}

#[test]
fn attachments_for_unencrypted_rooms_are_uploaded_again() {
    let (encrypted, info) = encrypt_attachment(b"picture").ok().unwrap();
    let entry = || MediaEntry {
        info: info.copy(),
        mimetype: Some("image/png".to_owned()),
        filename: Some("c.png".to_owned()),
    };
    let start = || {
        vec![
            SendEvent::Begin,
            SendEvent::Checked(Ok(false)),
            SendEvent::Body(Ok(br#"{"url":"mxc://x/y"}"#.to_vec())),
            SendEvent::Entry(Some(entry())),
        ]
    };
    let req = request("!r:x", "m.room.message");
    let mut events = start();
    events.push(SendEvent::Downloaded(Ok((200, encrypted))));
    events.push(SendEvent::Uploaded(Ok((200, br#"{"content_uri":"mxc://x/z"}"#.to_vec()))));
    let (_, mut steps) = run(&req, events);
    match steps.pop() {
        Some(SendStep::Forward(r)) => {
            assert_eq!(r.path, req.path);
            assert_eq!(write_json(&r.body.unwrap()), r#"{"url":"mxc://x/z"}"#);
        }
        _ => panic!("not forwarded"),
    }
    assert!(matches!(steps.pop(), Some(SendStep::Upload(u)) if u.body == b"picture"));
    assert!(matches!(
        steps.pop(),
        Some(SendStep::Download(p)) if p == "/_matrix/client/v1/media/download/x/y"
    ));
    assert!(matches!(steps.pop(), Some(SendStep::LookUp(Some(m))) if m == "mxc://x/y"));
    for event in [
        SendEvent::Downloaded(Err(Failure::new("x"))),
        SendEvent::Downloaded(Ok((404, vec![]))),
        SendEvent::Downloaded(Ok((200, b"bad".to_vec()))),
    ] {
        let mut events = start();
        events.push(event);
        match run(&req, events).1.pop() {
            Some(SendStep::Respond(Err(e))) => {
                assert_eq!(e.message(), "media fix-up for unencrypted room failed")
            }
            _ => panic!("no error"),
        }
    }
}

#[test]
fn attachments_for_encrypted_rooms_carry_their_key() {
    let (_, info) = encrypt_attachment(b"picture").ok().unwrap();
    let (_, mut steps) = run(
        &request("!r:x", "m.room.message"),
        vec![
            SendEvent::Begin,
            SendEvent::Checked(Ok(true)),
            SendEvent::Body(Ok(br#"{"url":"mxc://x/y"}"#.to_vec())),
            SendEvent::Entry(Some(MediaEntry { info, mimetype: None, filename: None })),
        ],
    );
    match steps.pop() {
        Some(SendStep::Encrypt(c)) => {
            assert!(c.get("url").is_none());
            assert_eq!(c.get2_text("file", "url"), Some("mxc://x/y".to_owned()));
        }
        _ => panic!("not encrypted"),
    }
}

fn plain_event() -> EncryptRequest {
    EncryptRequest {
        room_id: "!r:x".to_owned(),
        event_type: "m.room.message".to_owned(),
        content: json(r#"{"body":"hi"}"#),
    }
}

fn encrypt_run(events: Vec<EncryptEvent>) -> EncryptStep {
    let mut state = EncryptState::Start;
    let mut last = EncryptStep::Stop;
    for event in events {
        (state, last) = encrypt_content(&plain_event(), state, event);
    }
    last
}

fn members() -> Vec<String> {
    vec!["@a:x".to_owned(), "@b:x".to_owned()]
}

fn shared(missing: bool, shares: usize) -> Vec<EncryptEvent> {
    let mut events = vec![
        EncryptEvent::Begin,
        EncryptEvent::Members(members()),
        EncryptEvent::Through,
        EncryptEvent::Through,
        EncryptEvent::Missing(missing),
    ];
    if missing {
        events.push(EncryptEvent::Through);
    }
    events.push(EncryptEvent::Settings(None, "shared".to_owned()));
    events.push(EncryptEvent::Shares(shares));
    for _ in 0..shares {
        events.push(EncryptEvent::Through);
    }
    events
}

#[test]
fn encryption_runs_through_its_stages() {
    let first = |n: usize| {
        let mut events = shared(true, 2);
        events.truncate(n);
        encrypt_run(events)
    };
    assert!(matches!(first(1), EncryptStep::LookUpMembers { room_id } if room_id == "!r:x"));
    assert!(matches!(first(2), EncryptStep::Track { members: m } if m == members()));
    assert!(matches!(first(3), EncryptStep::Pump));
    assert!(matches!(first(4), EncryptStep::FindMissing { members: m } if m == members()));
    assert!(matches!(first(5), EncryptStep::Claim));
    assert!(matches!(first(6), EncryptStep::LookUpSettings { room_id } if room_id == "!r:x"));
    match first(7) {
        EncryptStep::Share { room_id, members: m, settings } => {
            assert_eq!((room_id.as_str(), m), ("!r:x", members()));
            assert_eq!(settings.history_visibility, "shared");
            assert!(settings.sharing_strategy == SharingStrategy::AllDevices);
        }
        _ => panic!("not shared"),
    }
    assert!(matches!(first(8), EncryptStep::SendShare(0)));
    assert!(matches!(first(9), EncryptStep::SendShare(1)));
    match first(10) {
        EncryptStep::Encrypt { room_id, event_type, content } => {
            assert_eq!((room_id.as_str(), event_type.as_str()), ("!r:x", "m.room.message"));
            assert_eq!(write_json(&content), r#"{"body":"hi"}"#);
        }
        _ => panic!("not encrypted"),
    }
    for (missing, shares) in [(false, 0), (true, 0), (false, 3)] {
        let mut events = shared(missing, shares);
        events.push(EncryptEvent::Encrypted(r#"{"ciphertext":"c"}"#.to_owned()));
        match encrypt_run(events) {
            EncryptStep::Finish(Ok(c)) => assert_eq!(write_json(&c), r#"{"ciphertext":"c"}"#),
            _ => panic!("no content"),
        }
    }
}

#[test]
fn encryption_ends_at_failures() {
    let contexts = [
        (1, "x"),
        (2, "update_tracked_users failed: x"),
        (3, "x"),
        (4, "get_missing_sessions failed: x"),
        (5, "keys/claim for missing sessions failed: x"),
        (6, "x"),
        (7, "share_room_key failed: x"),
        (8, "sending room key share failed: x"),
        (9, "sending room key share failed: x"),
        (10, "encrypt_room_event_raw failed: x"),
    ];
    for (n, text) in contexts {
        let mut events = shared(true, 2);
        events.truncate(n);
        events.push(EncryptEvent::Failed(Failure::new("x")));
        match encrypt_run(events) {
            EncryptStep::Finish(Err(f)) => assert_eq!(f.chain_text(), text),
            _ => panic!("no failure"),
        }
    }
    let mut events = shared(false, 1);
    events.push(EncryptEvent::Encrypted("<".to_owned()));
    match encrypt_run(events) {
        EncryptStep::Finish(Err(f)) => {
            assert_eq!(f.message(), "encrypted content is not valid JSON")
        }
        _ => panic!("no failure"),
    }
    // A content that comes before the key was shared is not taken.
    let early = vec![EncryptEvent::Begin, EncryptEvent::Encrypted("{}".to_owned())];
    assert!(matches!(encrypt_run(early), EncryptStep::Stop));
}

#[test]
fn settings_have_defaults() {
    let s = encryption_settings(None, "joined".to_owned());
    assert_eq!(s.algorithm, "m.megolm.v1.aes-sha2");
    assert_eq!(s.history_visibility, "joined");
    assert_eq!((s.rotation_period, s.rotation_period_msgs), (604800000, 100));
    assert!(s.sharing_strategy == SharingStrategy::AllDevices);
    let s = encryption_settings(
        Some(RoomSettings {
            algorithm: "a".to_owned(),
            only_allow_trusted_devices: false,
            session_rotation_period: Some(5),
            session_rotation_period_messages: Some(7),
        }),
        "shared".to_owned(),
    );
    assert_eq!(s.algorithm, "a");
    assert_eq!((s.rotation_period, s.rotation_period_msgs), (5, 7));
}

#[test]
fn room_messages_are_sent_plain_or_encrypted() {
    let r = RoomMessageRequest {
        room_id: "!r:x".to_owned(),
        event_type: "m.key.verification.start".to_owned(),
        txn_id: "t".to_owned(),
        content: json(r#"{"a":1}"#),
    };
    let http = send_room_message_request(&r, None);
    assert_eq!(
        http.path,
        "/_matrix/client/v3/rooms/%21r%3Ax/send/m.key.verification.start/t"
    );
    let http = send_room_message_request(&r, Some(json(r#"{"c":1}"#)));
    assert_eq!(http.path, "/_matrix/client/v3/rooms/%21r%3Ax/send/m.room.encrypted/t");
    assert_eq!(write_json(&http.body.unwrap()), r#"{"c":1}"#);
    let sent = |body: &str| room_message_sent(Ok(Reply { status: 200, body: json(body) }));
    assert!(sent(r#"{"event_id":"$e"}"#).is_ok());
    assert!(sent("{}").is_err());
    let f = room_message_sent(Ok(Reply { status: 403, body: Json::Null })).err().unwrap();
    assert_eq!(f.message(), "in-room verification send failed: 403 Forbidden null");
}
