use ement_e2ee::config::{normalize_homeserver, reads_config, Config, FileConfig, ServeArgs};
use ement_e2ee::crypto::media::RawUpload;
use ement_e2ee::error::ProxyError;
use ement_e2ee::failure::Failure;
use ement_e2ee::ids::is_user_id;
use ement_e2ee::json::Json;
use ement_e2ee::json_text::parse_json;
use ement_e2ee::proxy::login::{handle_login, login_body, LoginOutcome};
use ement_e2ee::proxy::passthrough::{copy_headers, is_hop_by_hop};
use ement_e2ee::proxy::request_relayed;
use ement_e2ee::proxy::routes::{classify, is_logout, Route};
use ement_e2ee::session::{
    account_from_login, account_from_whoami, sanitize_for_path, store_path, AccountContext,
    Session, SessionLookup, SessionManager,
};
use ement_e2ee::upstream::{RawReply, Upstream};
use ement_e2ee::wire::Reply;

fn json(text: &str) -> Json {
    match parse_json(text.as_bytes()) {
        Ok(j) => j,
        Err(e) => panic!("{e}"),
    }
}

fn session(token: &str, state: u8) -> Session<u8> {
    Session {
        account: AccountContext {
            user_id: "@a:x".to_owned(),
            device_id: "D".to_owned(),
            token: token.to_owned(),
        },
        state,
    }
}

#[test]
fn names_are_safe_for_paths() {
    assert_eq!(sanitize_for_path("@a:x.org"), "@a:x.org");
    assert_eq!(sanitize_for_path("A-Z_0=+9"), "A-Z_0=+9");
    assert_eq!(sanitize_for_path("../a\\c d\0é"), "..%2Fa%5Cc%20d%00%C3%A9");
    assert_eq!(sanitize_for_path("."), "%2E");
    assert_eq!(sanitize_for_path(".."), "%2E%2E");
    assert_eq!(sanitize_for_path(""), "%");
    assert_eq!(sanitize_for_path("%"), "%25");
    for id in ["...", "....", ".a", "a."] {
        assert_eq!(sanitize_for_path(id), id);
    }
}

#[test]
fn different_ids_have_different_names() {
    let ids = ["", "%", "%25", ".", "..", "%2E", "@a/b:x.org", "@a_b:x.org", "@a b:x.org"];
    for (i, a) in ids.iter().enumerate() {
        for b in &ids[i + 1..] {
            assert_ne!(sanitize_for_path(a), sanitize_for_path(b));
        }
    }
    let place = |user: &str, device: &str| {
        store_path(&AccountContext {
            user_id: user.to_owned(),
            device_id: device.to_owned(),
            token: "t".to_owned(),
        })
    };
    assert_eq!(place("@a:x.org", "DEV"), "@a:x.org/DEV");
    assert_eq!(place("@a:x.org", ".."), "@a:x.org/%2E%2E");
    assert_ne!(place("@a/b:x.org", "DEV"), place("@a_b:x.org", "DEV"));
}

#[test]
fn first_session_of_a_token_stays() {
    let mut m: SessionManager<u8> = SessionManager::new();
    assert!(matches!(
        m.get_or_init("t"),
        SessionLookup::Ask(r) if r.path == "/_matrix/client/v3/account/whoami"
    ));
    assert!(m.any().is_none());
    assert!(m.insert(session("t", 1)));
    assert!(!m.insert(session("t", 2)));
    assert_eq!(m.get("t").unwrap().state, 1);
    assert!(matches!(m.get_or_init("t"), SessionLookup::Known));
    assert!(m.insert(session("s", 3)));
    assert_eq!(m.list(), vec!["s", "t"]);
    assert_eq!(m.any().unwrap().state, 3);
    let login = json(r#"{"access_token":"t","user_id":"@a:x","device_id":"D"}"#);
    assert!(!m.insert_from_login(&login).ok().unwrap().1);
    m.remove("t");
    assert!(m.get("t").is_none());
    assert!(m.insert_from_login(&login).ok().unwrap().1);
}

#[test]
fn accounts_are_read_from_replies() {
    let reply = |status: u16, body: &str| Ok(Reply { status, body: json(body) });
    let a = account_from_whoami("t", reply(200, r#"{"user_id":"@a:x","device_id":"D"}"#));
    let a = a.ok().unwrap();
    assert_eq!((a.user_id.as_str(), a.device_id.as_str(), a.token.as_str()), ("@a:x", "D", "t"));
    let message = |r: Result<AccountContext, Failure>| r.err().unwrap().message();
    assert_eq!(
        message(account_from_whoami("t", reply(401, "{}"))),
        "whoami failed with 401 Unauthorized: {}"
    );
    assert_eq!(
        message(account_from_whoami("t", reply(200, "{}"))),
        "whoami response missing user_id"
    );
    assert_eq!(
        message(account_from_whoami("t", reply(200, r#"{"user_id":"@a:x"}"#))),
        "whoami response missing device_id (appservice tokens are unsupported)"
    );
    let f = account_from_whoami("t", reply(200, r#"{"user_id":"a","device_id":"D"}"#));
    assert_eq!(message(f), "invalid user_id");
    assert_eq!(message(account_from_login(&Json::Null)), "login response missing access_token");
    assert_eq!(
        message(account_from_login(&json(r#"{"access_token":"t"}"#))),
        "login response missing user_id"
    );
    assert_eq!(
        message(account_from_login(&json(r#"{"access_token":"t","user_id":"@a:x"}"#))),
        "login response missing device_id"
    );
    assert!(is_user_id("@a:x"));
    assert!(!is_user_id("a:x"));
    assert!(!is_user_id("@a"));
}

#[test]
fn logins_start_sessions() {
    let ok = br#"{"access_token":"t","user_id":"@a:x","device_id":"D"}"#;
    let mut m: SessionManager<u8> = SessionManager::new();
    assert!(matches!(handle_login(&m, 200, ok), LoginOutcome::Start(a) if a.token == "t"));
    assert!(matches!(handle_login(&m, 403, ok), LoginOutcome::Refused));
    assert!(matches!(handle_login(&m, 200, b"{}"), LoginOutcome::Later(_)));
    assert!(matches!(
        handle_login(&m, 200, b"<"),
        LoginOutcome::Later(f) if f.message() == "login response is not JSON"
    ));
    m.insert(session("t", 1));
    assert!(matches!(handle_login(&m, 200, ok), LoginOutcome::Known(a) if a.token == "t"));
    assert_eq!(login_body(Ok(b"x".to_vec())).ok().unwrap(), b"x");
    match login_body(Err("cut".to_owned())) {
        Err(ProxyError::BadRequest(m)) => assert_eq!(m, "failed to read login body: cut"),
        _ => panic!("body"),
    }
}

fn args(homeserver: Option<&str>) -> ServeArgs<u8> {
    ServeArgs {
        config: None,
        listen: None,
        homeserver: homeserver.map(str::to_owned),
        store_dir: None,
        log_level: None,
    }
}

fn file() -> FileConfig<u8> {
    FileConfig {
        listen: Some("127.0.0.1:1".to_owned()),
        homeserver: Some("https://file.org".to_owned()),
        store_dir: Some(7),
        log_level: None,
        store_passphrase: Some("p".to_owned()),
        admin_token: None,
    }
}

fn no_file() -> FileConfig<u8> {
    FileConfig {
        listen: None,
        homeserver: None,
        store_dir: None,
        log_level: None,
        store_passphrase: None,
        admin_token: None,
    }
}

#[test]
fn configuration_is_put_together() {
    let c = Config::load(args(Some("https://args.org/")), file(), Some(9)).ok().unwrap();
    assert_eq!(c.homeserver, "https://args.org/");
    assert_eq!(c.store_dir, 7);
    assert_eq!(c.listen, "127.0.0.1:1");
    assert_eq!(c.log_level, "info");
    assert_eq!(c.store_passphrase, Some("p".to_owned()));
    let c = Config::load(args(None), file(), None).ok().unwrap();
    assert_eq!(c.homeserver, "https://file.org/");
    let mut a = args(Some("https://args.org"));
    a.listen = Some("127.0.0.1:2".to_owned());
    a.log_level = Some("debug".to_owned());
    a.store_dir = Some(1);
    let c = Config::load(a, file(), Some(9)).ok().unwrap();
    assert_eq!((c.listen.as_str(), c.log_level.as_str(), c.store_dir), ("127.0.0.1:2", "debug", 1));
    let c = Config::load(args(Some("https://a.org")), no_file(), Some(9)).ok().unwrap();
    assert_eq!((c.listen.as_str(), c.store_dir), ("127.0.0.1:8009", 9));
    let message = |r: Result<Config<u8>, Failure>| r.err().unwrap().message();
    assert_eq!(
        message(Config::load(args(None), no_file(), None)),
        "no homeserver configured (set `homeserver` in config.toml or pass --homeserver)"
    );
    assert_eq!(
        message(Config::load(args(Some("https://a.org")), no_file(), None)),
        "could not determine store directory"
    );
    assert_eq!(
        message(Config::load(args(Some("not a url")), no_file(), None)),
        "homeserver is not a valid URL"
    );
    assert_eq!(
        normalize_homeserver(Some("https://a.org/path".to_owned())).err().unwrap().message(),
        "homeserver URL must not have a path: https://a.org/path"
    );
    assert!(reads_config(true, false, "f").ok().unwrap());
    assert!(!reads_config(false, false, "f").ok().unwrap());
    assert_eq!(
        reads_config(false, true, "f").err().unwrap().message(),
        "config file f does not exist"
    );
}

#[test]
fn urls_are_joined() {
    let u = Upstream::new("https://x.org:8448/".to_owned());
    assert_eq!(
        u.url("/_matrix/client/v3/sync?since=a%20b"),
        Some("https://x.org:8448/_matrix/client/v3/sync?since=a%20b".to_owned())
    );
    assert_eq!(Upstream::new("no url".to_owned()).url("/x"), None);
    let mut f = RawUpload {
        path: "/_matrix/media/v3/upload".to_owned(),
        content_type: String::new(),
        body: vec![],
        filename: Some("a b&c".to_owned()),
    };
    assert_eq!(
        u.upload_url(&f),
        Some("https://x.org:8448/_matrix/media/v3/upload?filename=a+b%26c".to_owned())
    );
    f.filename = None;
    assert_eq!(
        u.upload_url(&f),
        Some("https://x.org:8448/_matrix/media/v3/upload".to_owned())
    );
}

#[test]
fn replies_are_read_as_json() {
    let raw = |body: &[u8]| Ok(RawReply { status: 200, body: Ok(body.to_vec()) });
    assert!(matches!(Upstream::json_request(raw(b"")), Ok(Reply { body: Json::Null, .. })));
    assert!(matches!(
        Upstream::json_request(raw(b"7")),
        Ok(Reply { status: 200, body: Json::Natural(7) })
    ));
    let message = |r: Result<Reply, Failure>| r.err().unwrap().message();
    assert_eq!(message(Upstream::json_request(raw(b"<"))), "upstream returned non-JSON body");
    assert_eq!(
        message(Upstream::json_request(Err("down".to_owned()))),
        "upstream request failed"
    );
    assert_eq!(
        message(Upstream::json_request(Ok(RawReply { status: 200, body: Err("cut".to_owned()) }))),
        "failed to read upstream body"
    );
}

#[test]
fn hop_headers_are_not_copied() {
    let h = |n: &str| (n.to_owned(), b"v".to_vec());
    let src = vec![h("te"), h("accept"), h("host"), h("keep-alive"), h("x"), h("connection")];
    let mut dst = vec![h("first")];
    copy_headers(&src, &mut dst);
    assert_eq!(dst, vec![h("first"), h("accept"), h("x")]);
    for name in [
        "connection",
        "proxy-authenticate",
        "proxy-authorization",
        "te",
        "trailer",
        "transfer-encoding",
        "upgrade",
        "keep-alive",
        "proxy-connection",
    ] {
        assert!(is_hop_by_hop(name));
    }
    assert!(!is_hop_by_hop("host"));
}

#[test]
fn errors_become_matrix_errors() {
    let body = |e: ProxyError| {
        let r = e.into_response();
        (r.status, String::from_utf8(r.body).unwrap())
    };
    assert_eq!(
        body(ProxyError::Upstream("down".to_owned())),
        (502, r#"{"errcode":"M_UNKNOWN","error":"ement-e2ee: upstream request failed: down"}"#.to_owned())
    );
    assert_eq!(
        body(ProxyError::Internal(Failure::new("inner").context("outer"))),
        (500, r#"{"errcode":"M_UNKNOWN","error":"ement-e2ee: outer"}"#.to_owned())
    );
    assert_eq!(
        body(ProxyError::BadRequest("bad".to_owned())),
        (400, r#"{"errcode":"M_UNKNOWN","error":"ement-e2ee: bad"}"#.to_owned())
    );
}

#[test]
fn failures_tell_their_causes() {
    let f = Failure::caused("it failed", "the disk");
    assert_eq!(f.message(), "it failed");
    assert_eq!(f.chain_text(), "it failed: the disk");
    assert_eq!(f.context("outer").chain_text(), "outer: it failed: the disk");
}

#[test]
fn logouts_evict_sessions() {
    let sessions = || {
        let mut m: SessionManager<u8> = SessionManager::new();
        m.insert(session("t", 1));
        m.insert(session("s", 2));
        m
    };
    for path in ["/_matrix/client/v3/logout", "/_matrix/client/r0/logout/all"] {
        assert!(is_logout("POST", path));
        assert_eq!(classify("POST", path), Route::Passthrough);
        let mut m = sessions();
        request_relayed(&mut m, "POST", path, Some("t"), 200);
        assert_eq!(m.list(), vec!["s"]);
        let mut m = sessions();
        request_relayed(&mut m, "POST", path, Some("t"), 429);
        request_relayed(&mut m, "POST", path, None, 200);
        request_relayed(&mut m, "GET", path, Some("t"), 200);
        assert_eq!(m.list(), vec!["s", "t"]);
    }
    let mut m = sessions();
    request_relayed(&mut m, "POST", "/_matrix/client/v3/logout/some", Some("t"), 200);
    request_relayed(&mut m, "POST", "/_matrix/client/v3/delete_devices", Some("t"), 401);
    assert_eq!(m.list(), vec!["s", "t"]);
}
