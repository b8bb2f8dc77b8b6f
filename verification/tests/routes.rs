use ement_e2ee::crypto::machine::{send_and_mark, OutgoingRequest, RoomMessageRequest};
use ement_e2ee::crypto::media::download_path;
use ement_e2ee::json::Json;
use ement_e2ee::percent::{dec, enc};
use ement_e2ee::proxy::routes::{classify, Route};
use ement_e2ee::proxy::{
    bearer_token, route_with_session, session_evicted, session_need, SessionNeed,
};

#[test]
fn classify_core_routes() {
    assert_eq!(classify("POST", "/_matrix/client/r0/login"), Route::Login);
    assert_eq!(classify("GET", "/_matrix/client/v3/sync"), Route::Sync);
    assert_eq!(
        classify(
            "PUT",
            "/_matrix/client/r0/rooms/!abc%3Aexample.org/send/m.room.message/1-123"
        ),
        Route::Send {
            room_id: "!abc:example.org".into(),
            event_type: "m.room.message".into(),
            txn_id: "1-123".into(),
        }
    );
    assert_eq!(
        classify(
            "GET",
            "/_matrix/client/v1/media/download/example.org/abcd/file.jpg"
        ),
        Route::MediaDownload {
            server: "example.org".into(),
            media_id: "abcd".into(),
            authenticated: true,
        }
    );
    assert_eq!(
        classify("GET", "/_matrix/media/r0/download/example.org/abcd"),
        Route::MediaDownload {
            server: "example.org".into(),
            media_id: "abcd".into(),
            authenticated: false,
        }
    );
    // GET /login (flows) is NOT intercepted.
    assert_eq!(classify("GET", "/_matrix/client/r0/login"), Route::Passthrough);
    assert_eq!(classify("GET", "/_matrix/client/versions"), Route::Passthrough);
}

#[test]
fn classify_history_and_admin() {
    assert_eq!(
        classify("GET", "/_matrix/client/v3/rooms/!r:x/messages"),
        Route::Messages { room_id: "!r:x".into() }
    );
    assert_eq!(
        classify("GET", "/_matrix/client/v3/rooms/!r:x/context/$e"),
        Route::Context { room_id: "!r:x".into() }
    );
    assert_eq!(
        classify("GET", "/_matrix/client/v3/rooms/!r:x/event/$e"),
        Route::RoomEvent { room_id: "!r:x".into() }
    );
    assert_eq!(classify("POST", "/_matrix/media/v3/upload"), Route::MediaUpload);
    assert_eq!(classify("GET", "/_ement/verify/abc"), Route::Admin("verify/abc".into()));
    assert_eq!(classify("DELETE", "/_ement"), Route::Admin("".into()));
    assert_eq!(classify("GET", "/_ementx"), Route::Passthrough);
    assert_eq!(classify("GET", "/"), Route::Passthrough);
}

#[test]
fn version_segment_plays_no_part() {
    for v in ["r0", "v1", "v3", "v5", "unstable"] {
        let path = format!("/_matrix/client/{v}/sync");
        assert_eq!(classify("GET", &path), Route::Sync);
    }
}

#[test]
fn segments_are_encoded_and_decoded() {
    assert_eq!(enc("!abc:example.org"), "%21abc%3Aexample.org");
    assert_eq!(enc("a-_.~Z9"), "a-_.~Z9");
    assert_eq!(enc("ü/?"), "%C3%BC%2F%3F");
    for s in ["", "!abc:example.org", "a b/c?d#e%", "ünïcödé 🔒"] {
        assert_eq!(dec(&enc(s)), s);
    }
    assert_eq!(dec("%zz%4"), "%zz%4");
    assert_eq!(dec("%41%62"), "Ab");
    assert_eq!(dec("%FF"), "\u{FFFD}");
}

#[test]
fn tokens_from_header_and_query() {
    assert_eq!(bearer_token(Some(b"Bearer abc"), Some("access_token=q")), Some("abc".to_owned()));
    assert_eq!(bearer_token(None, Some("a=b&access_token=q&c")), Some("q".to_owned()));
    assert_eq!(bearer_token(Some(b"Basic abc"), None), None);
    assert_eq!(bearer_token(Some(b"Bearer \xff"), None), None);
    assert_eq!(bearer_token(None, None), None);
}

#[test]
fn sessions_that_routes_need() {
    assert!(matches!(session_need(&Route::Login, None), SessionNeed::Nothing));
    assert!(matches!(session_need(&Route::Sync, None), SessionNeed::Missing));
    assert!(matches!(
        session_need(&Route::Sync, Some("t".to_owned())),
        SessionNeed::OfToken(t) if t == "t"
    ));
    let legacy = classify("GET", "/_matrix/media/r0/download/example.org/abcd");
    assert!(matches!(session_need(&legacy, None), SessionNeed::AnyActive));
    assert_eq!(route_with_session(legacy.clone(), false), Route::Passthrough);
    assert_eq!(route_with_session(legacy.clone(), true), legacy);
    assert_eq!(route_with_session(Route::Login, false), Route::Login);
    assert!(session_evicted(401));
    assert!(!session_evicted(403));
}

#[test]
fn own_paths_are_recognized() {
    let r = send_and_mark(&OutgoingRequest::RoomMessage(RoomMessageRequest {
        room_id: "!a/b:x".to_owned(),
        txn_id: "t 1".to_owned(),
        event_type: "m.reaction".to_owned(),
        content: Json::object(),
    }));
    assert_eq!(
        classify(&r.method, &r.path),
        Route::Send {
            room_id: "!a/b:x".into(),
            event_type: "m.reaction".into(),
            txn_id: "t 1".into(),
        }
    );
    assert_eq!(
        classify("GET", &download_path("x.org", "a/b")),
        Route::MediaDownload {
            server: "x.org".into(),
            media_id: "a/b".into(),
            authenticated: true,
        }
    );
}

#[test]
fn plain_text_stands_for_itself() {
    for s in ["", "!abc:example.org", "a+b c", "ünïcödé 🔒"] {
        assert_eq!(dec(s), s);
    }
}
