use ement_e2ee::admin::ctl::{
    bootstrap_call, common_body, common_query, export_call, import_call, key_in_file, print_flow,
    run_verify, status_call, verify_output, Client, VerifyAction, VerifyCommon,
};
use ement_e2ee::admin::{
    bootstrap, command_response, handle, json_error, needed_text, read_json_body, resolve_session,
    status, target_in_body, target_in_query, verify_with, AdminRoute, FlowAction, SessionStatus,
};
use ement_e2ee::crypto::verify::{
    accept, confirm, get_request, get_sas, list, request_summary, sas_summary, show, start,
    start_sas, EmojiState, FlowState, SasState, Turned,
};
use ement_e2ee::error::ProxyError;
use ement_e2ee::failure::Failure;
use ement_e2ee::json::Json;
use ement_e2ee::json_text::{parse_json, write_json};
use ement_e2ee::session::{AccountContext, Session, SessionManager};
use ement_e2ee::wire::{Reply, Response};

fn json(text: &str) -> Json {
    match parse_json(text.as_bytes()) {
        Ok(j) => j,
        Err(e) => panic!("{e}"),
    }
}

fn body(r: &Response) -> String {
    String::from_utf8(r.body.clone()).unwrap()
}

fn common(user: Option<&str>, with: Option<&str>) -> VerifyCommon {
    VerifyCommon { user_id: user.map(str::to_owned), with_user: with.map(str::to_owned) }
}

fn session(user: &str, token: &str) -> Session<u8> {
    Session {
        account: AccountContext {
            user_id: user.to_owned(),
            device_id: "D".to_owned(),
            token: token.to_owned(),
        },
        state: 0,
    }
}

#[test]
fn admin_token_is_required() {
    let r = handle(Some("secret"), None, "GET", "status").err().unwrap();
    assert_eq!(r.status, 401);
    assert_eq!(body(&r), r#"{"error":"missing or invalid admin token"}"#);
    assert!(handle(Some("secret"), Some(b"Bearer other"), "GET", "status").is_err());
    assert!(matches!(
        handle(Some("secret"), Some(b"Bearer secret"), "GET", "status"),
        Ok(AdminRoute::Status)
    ));
    assert!(matches!(handle(None, None, "GET", "status"), Ok(AdminRoute::Status)));
}

#[test]
fn admin_routes_are_found() {
    assert!(matches!(handle(None, None, "POST", "bootstrap"), Ok(AdminRoute::Bootstrap)));
    assert!(matches!(handle(None, None, "POST", "keys/export"), Ok(AdminRoute::KeysExport)));
    assert!(matches!(handle(None, None, "POST", "keys/import"), Ok(AdminRoute::KeysImport)));
    assert!(matches!(handle(None, None, "GET", "verify"), Ok(AdminRoute::VerifyList)));
    assert!(matches!(handle(None, None, "POST", "verify/start"), Ok(AdminRoute::VerifyStart)));
    assert!(matches!(
        handle(None, None, "GET", "verify/%24a"),
        Ok(AdminRoute::VerifyShow { flow }) if flow == "$a"
    ));
    for (name, action) in [
        ("accept", FlowAction::Accept),
        ("start-sas", FlowAction::StartSas),
        ("sas-accept", FlowAction::SasAccept),
        ("confirm", FlowAction::Confirm),
        ("cancel", FlowAction::Cancel),
    ] {
        match handle(None, None, "POST", &format!("verify/f/{name}")) {
            Ok(AdminRoute::VerifyAct { flow, action: a }) => {
                assert_eq!(flow, "f");
                assert!(a == action);
            }
            _ => panic!("{name}"),
        }
    }
    let r = handle(None, None, "GET", "bootstrap").err().unwrap();
    assert_eq!(r.status, 404);
    assert_eq!(body(&r), r#"{"error":"unknown admin route: GET bootstrap"}"#);
    assert!(handle(None, None, "POST", "verify/f/x").is_err());
    let r = json_error(409, "x");
    assert_eq!(r.headers, vec![("content-type".to_owned(), b"application/json".to_vec())]);
}

#[test]
fn admin_bodies_are_read() {
    assert!(matches!(read_json_body(Ok(vec![])), Ok(Json::Null)));
    assert!(read_json_body(Ok(b"{}".to_vec())).is_ok());
    match read_json_body(Ok(b"{".to_vec())) {
        Err(ProxyError::BadRequest(m)) => assert!(m.starts_with("body is not JSON: EOF")),
        _ => panic!("read"),
    }
    match read_json_body(Err("long".to_owned())) {
        Err(ProxyError::BadRequest(m)) => assert_eq!(m, "failed to read body: long"),
        _ => panic!("read"),
    }
    let c = bootstrap(&json(r#"{"recovery_key":"k","user_id":"@a:x"}"#)).ok().unwrap();
    assert_eq!((c.recovery_key, c.user_id), ("k".to_owned(), Some("@a:x".to_owned())));
    match bootstrap(&Json::Null) {
        Err(ProxyError::BadRequest(m)) => assert_eq!(m, "missing recovery_key"),
        _ => panic!("read"),
    }
    assert!(needed_text(&Json::Null, "device_id").is_err());
    let t = target_in_query(Some("with_user=%40b%3Ax&user_id=@a:x"));
    assert_eq!(
        (t.user_id, t.with_user),
        (Some("@a:x".to_owned()), Some("@b:x".to_owned()))
    );
    let t = target_in_body(&json(r#"{"with_user":"@b:x"}"#));
    assert_eq!((t.user_id, t.with_user), (None, Some("@b:x".to_owned())));
    assert_eq!(verify_with("@me:x", None).ok().unwrap(), "@me:x");
    assert_eq!(verify_with("@me:x", Some("@b:x".to_owned())).ok().unwrap(), "@b:x");
    match verify_with("@me:x", Some("b".to_owned())) {
        Err(ProxyError::BadRequest(m)) => assert_eq!(m, "invalid with_user: b"),
        _ => panic!("user"),
    }
}

#[test]
fn sessions_are_resolved() {
    let mut m: SessionManager<u8> = SessionManager::new();
    let r = resolve_session(&m, None).err().unwrap();
    assert_eq!(r.status, 409);
    assert_eq!(
        body(&r),
        "{\"error\":\"no active sessions — connect ement through the proxy first\"}"
    );
    assert!(m.insert(session("@a:x", "t1")));
    assert_eq!(resolve_session(&m, None).ok().unwrap(), "t1");
    assert!(m.insert(session("@b:x", "t0")));
    let r = resolve_session(&m, None).err().unwrap();
    assert_eq!(body(&r), r#"{"error":"multiple sessions active, pass user_id: @b:x, @a:x"}"#);
    assert_eq!(resolve_session(&m, Some("@a:x")).ok().unwrap(), "t1");
    let r = resolve_session(&m, Some("@c:x")).err().unwrap();
    assert_eq!(r.status, 404);
    assert_eq!(body(&r), r#"{"error":"no active session for @c:x"}"#);
}

#[test]
fn status_is_reported() {
    let s = SessionStatus {
        user_id: "@a:x".to_owned(),
        device_id: "D".to_owned(),
        identity_keys: json(r#"{"ed25519":"k"}"#),
        has_master: true,
        has_self_signing: false,
        has_user_signing: false,
        backup_enabled: true,
        backup_version: Some("1".to_owned()),
    };
    let r = status("0.1.0", "https://x/", &vec![s]);
    assert_eq!(r.status, 200);
    assert_eq!(
        body(&r),
        r#"{"homeserver":"https://x/","sessions":[{"backup":{"enabled":true,"version":"1"},"cross_signing":{"has_master":true,"has_self_signing":false,"has_user_signing":false},"device_id":"D","identity_keys":{"ed25519":"k"},"user_id":"@a:x"}],"version":"0.1.0"}"#
    );
    let r = command_response(Err(Failure::new("inner").context("outer")));
    assert_eq!((r.status, body(&r).as_str()), (500, r#"{"error":"outer: inner"}"#));
    assert_eq!(command_response(Ok(Json::Null)).status, 200);
}

fn flow() -> FlowState {
    FlowState {
        flow_id: "f".to_owned(),
        other_user: "@a:x".to_owned(),
        we_started: true,
        is_ready: false,
        is_done: false,
        is_passive: false,
        is_cancelled: false,
        their_methods: Some(vec!["m.sas.v1".to_owned()]),
        state: "Created".to_owned(),
    }
}

#[test]
fn verifications_are_shown() {
    let f = r#"{"flow_id":"f","is_cancelled":false,"is_done":false,"is_passive":false,"is_ready":false,"other_user":"@a:x","state":"Created","their_methods":["m.sas.v1"],"we_started":true}"#;
    assert_eq!(write_json(&request_summary(&flow())), f);
    assert_eq!(write_json(&list(&vec![flow()])), format!(r#"{{"requests":[{f}]}}"#));
    assert_eq!(write_json(&show(&flow(), None)), f);
    let sas = SasState {
        emoji: Some(EmojiState {
            symbols: vec!["🐶".to_owned()],
            descriptions: vec!["Dog".to_owned()],
            formatted: "🐶 Dog".to_owned(),
        }),
        decimals: Some((1, 2, 3)),
        is_done: false,
        can_be_presented: true,
        cancel_code: None,
    };
    let s = "{\"can_be_presented\":true,\"cancel_info\":null,\"decimals\":[1,2,3],\"emoji\":{\"descriptions\":[\"Dog\"],\"formatted\":\"🐶 Dog\",\"symbols\":[\"🐶\"]},\"is_done\":false}";
    assert_eq!(write_json(&sas_summary(&sas)), s);
    let shown = show(&flow(), Some(&sas));
    assert_eq!(write_json(shown.get("sas").unwrap()), s);
    assert!(print_flow(&shown)
        .starts_with("\nCompare these emoji with the other device:\n\n🐶 Dog\n\n{\n"));
    assert_eq!(print_flow(&Json::object()), "{}\n");
}

#[test]
fn verifications_are_looked_up() {
    assert_eq!(get_request("f", "@a:x", Some(1)).ok().unwrap(), 1);
    let message = |f: Failure| f.message();
    assert_eq!(
        get_request::<u8>("f", "@a:x", None).map_err(message),
        Err("no verification flow f with @a:x".to_owned())
    );
    assert_eq!(get_sas("f", Turned::Sas(2)).ok().unwrap(), 2);
    assert_eq!(
        get_sas::<u8>("f", Turned::Other).map_err(message),
        Err("flow f is not a SAS verification".to_owned())
    );
    assert_eq!(
        get_sas::<u8>("f", Turned::Nothing).map_err(message),
        Err("flow f has no active SAS yet (accept it first, then start-sas — or wait for the other side to choose emoji verification)".to_owned())
    );
    assert_eq!(
        start::<u8>("D", None).map_err(message),
        Err("device D not found (has it queried keys yet?)".to_owned())
    );
    assert_eq!(start("D", Some(3)).ok().unwrap(), 3);
    assert_eq!(
        accept::<u8>(None).map_err(message),
        Err("flow cannot be accepted in its current state".to_owned())
    );
    assert_eq!(accept(Some(4)).ok().unwrap(), 4);
    assert_eq!(
        start_sas::<u8>(None).map_err(message),
        Err("flow is not ready for SAS (accept it on both sides first)".to_owned())
    );
    assert_eq!(start_sas(Some(5)).ok().unwrap(), 5);
    assert!(confirm(Ok(Reply { status: 200, body: Json::Null })).is_ok());
    assert_eq!(
        confirm(Ok(Reply { status: 400, body: Json::Null })).err().unwrap().message(),
        "signature upload after verification failed: 400 Bad Request null"
    );
}

#[test]
fn queries_and_bodies_name_the_users() {
    assert_eq!(common_query(&common(None, None)), "");
    assert_eq!(common_query(&common(Some("@a:x"), None)), "?user_id=@a:x");
    assert_eq!(common_query(&common(None, Some("@b:x"))), "?with_user=@b:x");
    assert_eq!(
        common_query(&common(Some("@a:x"), Some("@b:x"))),
        "?user_id=@a:x&with_user=@b:x"
    );
    assert_eq!(write_json(&common_body(&common(None, None))), "{}");
    assert_eq!(
        write_json(&common_body(&common(Some("@a:x"), Some("@b:x")))),
        r#"{"user_id":"@a:x","with_user":"@b:x"}"#
    );
}

#[test]
fn commands_make_their_calls() {
    let client = Client::new("http://127.0.0.1:8009//");
    assert_eq!(client.base, "http://127.0.0.1:8009/_ement");
    let r = client.request(status_call());
    assert_eq!((r.method.as_str(), r.url.as_str()), ("GET", "http://127.0.0.1:8009/_ement/status"));
    let call = run_verify(&VerifyAction::List { common: common(Some("@a:x"), None) });
    assert_eq!(call.path, "verify?user_id=@a:x");
    assert!(call.body.is_none());
    let start = VerifyAction::Start { device: "DEV".to_owned(), common: common(None, None) };
    let call = run_verify(&start);
    assert_eq!(call.path, "verify/start");
    let r = client.request(call);
    assert_eq!(r.method, "POST");
    assert_eq!(write_json(&r.body.unwrap()), r#"{"device_id":"DEV"}"#);
    let call = run_verify(&VerifyAction::Show {
        flow: "f".to_owned(),
        common: common(None, Some("@b:x")),
    });
    assert_eq!(call.path, "verify/f?with_user=@b:x");
    let f = || "f".to_owned();
    let c = || common(None, None);
    for (action, path) in [
        (VerifyAction::Accept { flow: f(), common: c() }, "verify/f/accept"),
        (VerifyAction::StartSas { flow: f(), common: c() }, "verify/f/start-sas"),
        (VerifyAction::SasAccept { flow: f(), common: c() }, "verify/f/sas-accept"),
        (VerifyAction::Confirm { flow: f(), common: c() }, "verify/f/confirm"),
        (VerifyAction::Cancel { flow: f(), common: c() }, "verify/f/cancel"),
    ] {
        let call = run_verify(&action);
        assert_eq!(call.path, path);
        assert!(call.body.is_some());
        // The API admits what the command line asks.
        assert!(matches!(
            handle(None, None, "POST", path),
            Ok(AdminRoute::VerifyAct { flow, .. }) if flow == "f"
        ));
    }
    assert_eq!(
        verify_output(&start, &json(r#"{"flow_id":"f"}"#)),
        "{\n  \"flow_id\": \"f\"\n}\n\nNow accept the request on the other device, then run:\n  ement-e2ee ctl verify show f\n"
    );
    assert_eq!(verify_output(&VerifyAction::List { common: c() }, &Json::Null), "null\n");
    let call = bootstrap_call("k", &Some("@a:x".to_owned()));
    assert_eq!(write_json(&call.body.unwrap()), r#"{"recovery_key":"k","user_id":"@a:x"}"#);
    assert_eq!(write_json(&export_call("p", &None).body.unwrap()), r#"{"passphrase":"p"}"#);
    assert_eq!(
        write_json(&import_call("p", "e", &None).body.unwrap()),
        r#"{"export":"e","passphrase":"p"}"#
    );
    assert_eq!(key_in_file("\u{2003} a b \n\n"), "a b");
    assert_eq!(key_in_file(" \n"), "");
}

#[test]
fn responses_to_calls_are_read() {
    assert!(matches!(Client::to_json(200, None), Ok(Json::Null)));
    let f = Client::to_json(404, Some(json(r#"{"error":"gone"}"#))).err().unwrap();
    assert_eq!(f.message(), "404 Not Found: gone");
    let f = Client::to_json(500, None).err().unwrap();
    assert_eq!(f.message(), "500 Internal Server Error: unknown error");
}

#[test]
fn named_users_reach_the_api() {
    for (user, with) in [
        (Some("@a:x"), Some("@b:x")),
        (Some("@a:x"), None),
        (None, Some("@b:x")),
    ] {
        let c = common(user, with);
        let query = common_query(&c);
        let t = target_in_query(query.strip_prefix('?'));
        assert_eq!((t.user_id.as_deref(), t.with_user.as_deref()), (user, with));
        let t = target_in_body(&common_body(&c));
        assert_eq!((t.user_id.as_deref(), t.with_user.as_deref()), (user, with));
    }
}

#[test]
fn whitespace_round_a_key_is_left_out() {
    assert_eq!(key_in_file("\u{FEFF}EsTc abc\t\r\n"), "\u{FEFF}EsTc abc");
    assert_eq!(key_in_file("\u{3000}\u{2028}\u{85}k\u{A0}\u{2009}"), "k");
    assert_eq!(key_in_file("\u{200B}k"), "\u{200B}k");
    assert_eq!(key_in_file(" \n "), "");
}
