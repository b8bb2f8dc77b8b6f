use ement_e2ee::crypto::backup::{
    current_backup_version, key_matched, restore_from_backup, BackupRestoreReport, KeyMatch,
    RestoreEvent, RestoreState, RestoreStep,
};
use ement_e2ee::crypto::machine::{
    decryption_settings, keys_claim_sent, mark_as_sent, pump, send_and_mark, send_keys_claim,
    send_to_device, start_pump, to_device_sent, KeysClaimRequest, OutgoingRequest, PumpEvent,
    PumpState, PumpStep, RoomMessageRequest, ToDeviceRequest, TrustRequirement,
};
use ement_e2ee::crypto::ssss::{
    account_data_request, bootstrap, bootstrap_report, bootstrap_step, fetch_account_data,
    get_secret,
    key_description_type, open_secret_storage_key, own_keys_queried, query_own_keys, read_secret,
    secret_name, signature_upload, signature_uploaded, stage_failure, start_bootstrap,
    Bootstrap, BootstrapEvent, BootstrapStage, BootstrapStep, Secret,
};
use ement_e2ee::crypto::sync::{
    handle_sync, receive_sync_changes, SyncEvent, SyncState, SyncStep,
};
use ement_e2ee::error::ProxyError;
use ement_e2ee::failure::Failure;
use ement_e2ee::json::Json;
use ement_e2ee::json_text::{parse_json, write_json};
use ement_e2ee::string_map::StringMap;
use ement_e2ee::wire::Reply;
use matrix_sdk_crypto::secret_storage::SecretStorageKey;
use matrix_sdk_crypto::store::types::BackupDecryptionKey;
use ruma::events::secret::request::SecretName;

fn json(text: &str) -> Json {
    match parse_json(text.as_bytes()) {
        Ok(j) => j,
        Err(e) => panic!("{e}"),
    }
}

fn reply(status: u16, body: &str) -> Result<Reply, Failure> {
    Ok(Reply { status, body: json(body) })
}

#[test]
fn sync_changes_are_read() {
    let body = json(
        r#"{"next_batch":"n","to_device":{"events":[{"type":"a"},{"type":"b"}]},"device_lists":{"changed":["@a:x"],"left":["@b:x"]},"device_one_time_keys_count":{"signed_curve25519":50},"device_unused_fallback_key_types":["signed_curve25519","other"]}"#,
    );
    let c = receive_sync_changes(&body).ok().unwrap();
    assert_eq!(c.to_device_events.len(), 2);
    assert_eq!(write_json(&c.to_device_events[1]), r#"{"type":"b"}"#);
    assert_eq!((c.changed, c.left), (vec!["@a:x".to_owned()], vec!["@b:x".to_owned()]));
    assert_eq!(c.one_time_keys_counts, vec![("signed_curve25519".to_owned(), 50)]);
    assert_eq!(
        c.unused_fallback_keys,
        Some(vec!["signed_curve25519".to_owned(), "other".to_owned()])
    );
    assert_eq!(c.next_batch, Some("n".to_owned()));
    let c = receive_sync_changes(&Json::object()).ok().unwrap();
    assert!(c.to_device_events.is_empty());
    assert_eq!(c.unused_fallback_keys, None);
    let c = receive_sync_changes(&json(
        r#"{"org.matrix.msc2732.device_unused_fallback_key_types":["k"]}"#,
    ));
    assert_eq!(c.ok().unwrap().unused_fallback_keys, Some(vec!["k".to_owned()]));
}

#[test]
fn bad_sync_changes_are_refused() {
    for (body, message) in [
        (r#"{"to_device":{"events":{}}}"#, "invalid to_device.events in sync response"),
        (r#"{"device_lists":{"changed":["nobody"]}}"#, "invalid device_lists in sync response"),
        (
            r#"{"device_one_time_keys_count":{"k":-1}}"#,
            "invalid device_one_time_keys_count in sync response",
        ),
        (
            r#"{"device_unused_fallback_key_types":[1]}"#,
            "invalid device_unused_fallback_key_types in sync response",
        ),
    ] {
        let f = receive_sync_changes(&json(body)).err().unwrap();
        assert_eq!(f.message(), message);
        assert_eq!(f.messages.len(), 2);
    }
}

fn fetched(status: u16, body: &str) -> SyncEvent {
    SyncEvent::Fetched(Ok((status, Some(b"application/json".to_vec()), body.as_bytes().to_vec())))
}

fn nothing_decrypted() -> SyncEvent {
    SyncEvent::Decrypted { joined: StringMap::new(), left: StringMap::new() }
}

#[test]
fn machine_gets_its_part_of_a_sync_first() {
    let (s, step) = handle_sync(SyncState::Start, SyncEvent::Begin);
    assert!(matches!(step, SyncStep::Fetch));
    let body = r#"{"next_batch":"n","rooms":{"join":{"!r:x":{"timeline":{"events":[]}}}}}"#;
    let (s, step) = handle_sync(s, fetched(200, body));
    assert!(matches!(step, SyncStep::Feed(c) if c.next_batch == Some("n".to_owned())));
    let (s, step) = handle_sync(s, SyncEvent::Fed(Ok(())));
    assert!(matches!(step, SyncStep::Decrypt(b) if write_json(&b) == body));
    let (s, step) = handle_sync(s, nothing_decrypted());
    match step {
        SyncStep::Deliver(Ok(r)) => {
            assert_eq!((r.status, r.body), (200, body.as_bytes().to_vec()));
            assert_eq!(
                r.headers,
                vec![("content-type".to_owned(), b"application/json".to_vec())]
            );
        }
        _ => panic!("not delivered"),
    }
    assert!(matches!(handle_sync(s, SyncEvent::Begin), (SyncState::Done, SyncStep::Stop)));
}

#[test]
fn syncs_are_refused() {
    let fetching = || handle_sync(SyncState::Start, SyncEvent::Begin).0;
    assert!(matches!(
        handle_sync(fetching(), fetched(401, "{}")),
        (SyncState::Done, SyncStep::Refuse(Ok(r))) if r.status == 401
    ));
    let message = |step: SyncStep| match step {
        SyncStep::Refuse(Err(e)) => e.message(),
        _ => panic!("not refused"),
    };
    assert_eq!(
        message(handle_sync(fetching(), fetched(200, "<")).1),
        "sync response is not valid JSON"
    );
    assert_eq!(
        message(handle_sync(fetching(), fetched(200, r#"{"to_device":{"events":1}}"#)).1),
        "invalid to_device.events in sync response"
    );
    let down = SyncEvent::Fetched(Err(ProxyError::Upstream("down".to_owned())));
    assert_eq!(message(handle_sync(fetching(), down).1), "upstream request failed: down");
    let (s, _) = handle_sync(fetching(), fetched(200, "{}"));
    let (s, step) = handle_sync(s, SyncEvent::Fed(Err(Failure::new("store"))));
    assert_eq!(message(step), "receive_sync_changes failed");
    assert!(matches!(handle_sync(s, nothing_decrypted()).1, SyncStep::Stop));
    // Nothing is delivered before the machine has its part.
    let (s, _) = handle_sync(fetching(), fetched(200, "{}"));
    assert!(matches!(handle_sync(s, nothing_decrypted()).1, SyncStep::Stop));
}

#[test]
fn outgoing_requests_have_their_paths() {
    let r = send_and_mark(&OutgoingRequest::KeysUpload {
        own_keys: Some(json(r#"{"k":1}"#)),
        one_time_keys: json(r#"{"o":1}"#),
        fallback_keys: Json::object(),
    });
    assert_eq!((r.method.as_str(), r.path.as_str()), ("POST", "/_matrix/client/v3/keys/upload"));
    assert_eq!(write_json(&r.body.unwrap()), r#"{"device_keys":{"k":1},"one_time_keys":{"o":1}}"#);
    let r = send_and_mark(&OutgoingRequest::KeysQuery {
        device_keys: json(r#"{"@a:x":[]}"#),
        timeout: Some(10000),
    });
    assert_eq!(r.path, "/_matrix/client/v3/keys/query");
    assert_eq!(write_json(&r.body.unwrap()), r#"{"device_keys":{"@a:x":[]},"timeout":10000}"#);
    let r = send_keys_claim(&KeysClaimRequest { one_time_keys: Json::object(), timeout: None });
    assert_eq!(r.path, "/_matrix/client/v3/keys/claim");
    assert_eq!(write_json(&r.body.unwrap()), r#"{"one_time_keys":{}}"#);
    let r = send_to_device(&ToDeviceRequest {
        event_type: "m.room.encrypted".to_owned(),
        txn_id: "a b".to_owned(),
        messages: Json::object(),
    });
    assert_eq!(r.method, "PUT");
    assert_eq!(r.path, "/_matrix/client/v3/sendToDevice/m.room.encrypted/a%20b");
    assert_eq!(write_json(&r.body.unwrap()), r#"{"messages":{}}"#);
    let r = send_and_mark(&OutgoingRequest::SignatureUpload { signed_keys: json(r#"{"s":1}"#) });
    assert_eq!(r.path, "/_matrix/client/v3/keys/signatures/upload");
    let r = send_and_mark(&OutgoingRequest::RoomMessage(RoomMessageRequest {
        room_id: "!r:x".to_owned(),
        event_type: "m.a".to_owned(),
        txn_id: "t".to_owned(),
        content: Json::Null,
    }));
    assert_eq!(r.path, "/_matrix/client/v3/rooms/%21r%3Ax/send/m.a/t");
    let r = send_and_mark(&OutgoingRequest::KeysBackup {
        version: "1".to_owned(),
        rooms: Json::object(),
    });
    assert_eq!(r.path, "/_matrix/client/v3/room_keys/keys?version=1");
    assert_eq!(write_json(&r.body.unwrap()), r#"{"rooms":{}}"#);
}

#[test]
fn refusals_of_requests_are_reported() {
    let query = OutgoingRequest::KeysQuery { device_keys: Json::object(), timeout: None };
    assert!(mark_as_sent(&query, reply(200, "{}")).is_ok());
    let message = |r: Result<Json, Failure>| r.err().unwrap().message();
    assert_eq!(
        message(mark_as_sent(&query, reply(500, "{}"))),
        "upstream returned 500 Internal Server Error: {}"
    );
    assert_eq!(message(mark_as_sent(&query, Err(Failure::new("down")))), "down");
    assert_eq!(message(keys_claim_sent(reply(400, "1"))), "keys/claim returned 400 Bad Request: 1");
    assert_eq!(message(to_device_sent(reply(299, "1").and(Err(Failure::new("x"))))), "x");
    assert_eq!(message(to_device_sent(reply(404, "1"))), "sendToDevice returned 404 Not Found: 1");
    assert!(
        decryption_settings().sender_device_trust_requirement == TrustRequirement::Untrusted
    );
}

#[test]
fn replies_must_answer_their_requests() {
    let claim = || KeysClaimRequest { one_time_keys: Json::object(), timeout: None };
    let requests = [
        (
            OutgoingRequest::KeysUpload {
                own_keys: None,
                one_time_keys: Json::object(),
                fallback_keys: Json::object(),
            },
            r#"{"one_time_key_counts":{"signed_curve25519":50}}"#,
            "{}",
        ),
        (
            OutgoingRequest::KeysQuery { device_keys: Json::object(), timeout: None },
            r#"{"device_keys":{"@a:x":{}}}"#,
            r#"{"device_keys":1}"#,
        ),
        (OutgoingRequest::KeysClaim(claim()), r#"{"one_time_keys":{}}"#, "{}"),
        (
            OutgoingRequest::SignatureUpload { signed_keys: Json::object() },
            "{}",
            r#"{"failures":1}"#,
        ),
        (
            OutgoingRequest::RoomMessage(RoomMessageRequest {
                room_id: "!r:x".to_owned(),
                event_type: "m.a".to_owned(),
                txn_id: "t".to_owned(),
                content: Json::Null,
            }),
            r#"{"event_id":"$e"}"#,
            r#"{"event_id":1}"#,
        ),
        (
            OutgoingRequest::KeysBackup { version: "1".to_owned(), rooms: Json::object() },
            r#"{"count":3,"etag":"e"}"#,
            r#"{"etag":"e"}"#,
        ),
    ];
    for (request, good, bad) in requests {
        assert_eq!(write_json(&mark_as_sent(&request, reply(200, good)).ok().unwrap()), good);
        assert!(mark_as_sent(&request, reply(200, bad)).is_err());
        assert!(mark_as_sent(&request, reply(400, good)).is_err());
    }
    let f = mark_as_sent(&OutgoingRequest::KeysClaim(claim()), reply(200, "{}")).err().unwrap();
    assert!(f.message().contains("missing field `one_time_keys`"));
    let to_device = OutgoingRequest::ToDevice(ToDeviceRequest {
        event_type: "m.a".to_owned(),
        txn_id: "t".to_owned(),
        messages: Json::object(),
    });
    assert!(mark_as_sent(&to_device, reply(200, "1")).is_ok());
    assert!(to_device_sent(reply(200, "1")).is_ok());
    assert!(keys_claim_sent(reply(200, r#"{"one_time_keys":{}}"#)).is_ok());
    assert!(keys_claim_sent(reply(200, "{}")).is_err());
    assert!(own_keys_queried(reply(200, "{}")).is_ok());
    assert!(own_keys_queried(reply(200, r#"{"master_keys":1}"#)).is_err());
}

#[test]
fn pump_sends_in_order_and_stops_at_failures() {
    let (s, step) = start_pump();
    assert!(step == PumpStep::FetchQueue);
    let (s, step) = pump(s, PumpEvent::Queue(Some(2)));
    assert!(step == PumpStep::Send(0));
    let (s, step) = pump(s, PumpEvent::Sent(true));
    assert!(step == PumpStep::Send(1));
    assert!(pump(s, PumpEvent::Sent(false)) == (PumpState::Stopped, PumpStep::Stop));
    let (s, step) = pump(s, PumpEvent::Sent(true));
    assert!(step == PumpStep::FetchQueue);
    assert!(pump(s, PumpEvent::Queue(None)) == (PumpState::Stopped, PumpStep::Stop));
    let (s, step) = pump(s, PumpEvent::Queue(Some(0)));
    assert!(step == PumpStep::FetchBackup);
    let (s2, step) = pump(s, PumpEvent::Backup(true));
    assert!(step == PumpStep::SendBackup);
    let (s2, step) = pump(s2, PumpEvent::Sent(true));
    assert!(step == PumpStep::FetchBackup);
    assert!(pump(s2, PumpEvent::Backup(false)) == (PumpState::Stopped, PumpStep::Stop));
}

#[test]
fn secrets_are_opened_with_the_recovery_key() {
    let key = SecretStorageKey::new();
    let recovery = key.to_base58();
    let kind = format!("m.secret_storage.key.{}", key.key_id());
    let about = serde_json::to_string(key.event_content()).unwrap();
    let name = "m.cross_signing.master";
    let data = key.encrypt(b"secret".to_vec(), &SecretName::from(name));
    let data = serde_json::to_string(&data).unwrap();

    assert_eq!(
        key_description_type(Some(json(&format!(r#"{{"key":"{}"}}"#, key.key_id())))).ok().unwrap(),
        kind
    );
    let open = open_secret_storage_key(&recovery, &kind, Some(json(&about))).ok().unwrap();
    assert_eq!(open.key_id, key.key_id());
    let content = || json(&format!(r#"{{"encrypted":{{"{}":{data}}}}}"#, key.key_id()));
    assert_eq!(get_secret(&open, name, Some(content())).ok().unwrap(), Some("secret".to_owned()));
    assert_eq!(get_secret(&open, name, None).ok().unwrap(), None);
    let other = json(r#"{"encrypted":{"other":{}}}"#);
    assert_eq!(get_secret(&open, name, Some(other)).ok().unwrap(), None);
    // Under another name the data is taken for forged.
    let f = get_secret(&open, "m.megolm_backup.v1", Some(content())).err().unwrap();
    assert_eq!(f.message(), "MAC check failed decrypting m.megolm_backup.v1");
    let bad = json(&format!(r#"{{"encrypted":{{"{}":{{}}}}}}"#, key.key_id()));
    let f = get_secret(&open, name, Some(bad)).err().unwrap();
    assert_eq!(f.message(), "malformed encrypted data for m.cross_signing.master");
    let f = read_secret("n", Secret::Plain(vec![0xff])).err().unwrap();
    assert_eq!(f.message(), "secret n is not valid UTF-8");
    // Another key does not go with the description.
    let wrong = SecretStorageKey::new().to_base58();
    let f = open_secret_storage_key(&wrong, &kind, Some(json(&about))).err().unwrap();
    assert_eq!(
        f.message(),
        "recovery key/passphrase does not match the secret storage key"
    );
    let f = open_secret_storage_key(&recovery, &kind, Some(json("[]"))).err().unwrap();
    assert_eq!(f.message(), "malformed secret storage key description");
    let f = open_secret_storage_key(&recovery, "t", None).err().unwrap();
    assert_eq!(f.message(), "missing account data t");
    assert_eq!(
        key_description_type(None).err().unwrap().message(),
        "no m.secret_storage.default_key account data: secret storage is not set up"
    );
    assert_eq!(
        key_description_type(Some(Json::object())).err().unwrap().message(),
        "malformed m.secret_storage.default_key content"
    );
}

#[test]
fn account_data_is_fetched() {
    let r = account_data_request("@a:x", "m.k");
    assert_eq!(r.path, "/_matrix/client/v3/user/%40a%3Ax/account_data/m.k");
    assert!(fetch_account_data("m.k", reply(404, "{}")).ok().unwrap().is_none());
    assert!(fetch_account_data("m.k", reply(200, "{}")).ok().unwrap().is_some());
    let f = fetch_account_data("m.k", reply(403, "{}")).err().unwrap();
    assert_eq!(f.message(), "fetching account data m.k failed: 403 Forbidden {}");
    let r = query_own_keys(&json(r#"{"@a:x":[]}"#));
    assert_eq!(write_json(&r.body.unwrap()), r#"{"device_keys":{"@a:x":[]}}"#);
    let r = signature_upload(&json(r#"{"s":1}"#));
    assert_eq!(write_json(&r.body.unwrap()), r#"{"s":1}"#);
    assert_eq!(
        own_keys_queried(reply(500, "{}")).err().unwrap().message(),
        "keys/query failed: 500 Internal Server Error {}"
    );
    assert_eq!(
        signature_uploaded(reply(500, "{}")).err().unwrap().message(),
        "signature upload failed: 500 Internal Server Error {}"
    );
}

#[test]
fn bootstrap_runs_through_its_stages() {
    let secret = |s: &str| BootstrapEvent::Secret(Some(s.to_owned()));
    let fetches = |b: &Bootstrap, name: &str| {
        matches!(bootstrap_step(b), BootstrapStep::FetchSecret(n) if n == name)
    };
    let b = start_bootstrap();
    assert!(matches!(bootstrap_step(&b), BootstrapStep::OpenStorage));
    let b = bootstrap(b, BootstrapEvent::Through);
    assert!(fetches(&b, "m.cross_signing.master"));
    let b = bootstrap(b, secret("m"));
    assert!(fetches(&b, "m.cross_signing.self_signing"));
    let b = bootstrap(b, secret("s"));
    assert!(fetches(&b, "m.cross_signing.user_signing"));
    let b = bootstrap(b, BootstrapEvent::Secret(None));
    assert!(matches!(bootstrap_step(&b), BootstrapStep::QueryKeys));
    let b = bootstrap(b, BootstrapEvent::Through);
    match bootstrap_step(&b) {
        BootstrapStep::Import { master_key, self_signing_key, user_signing_key } => {
            assert_eq!(master_key.as_deref(), Some("m"));
            assert_eq!(self_signing_key.as_deref(), Some("s"));
            assert_eq!(user_signing_key, None);
        }
        _ => panic!("no import"),
    }
    let b = bootstrap(b, BootstrapEvent::Imported { has_self_signing: true });
    assert!(matches!(bootstrap_step(&b), BootstrapStep::Sign));
    let b = bootstrap(b, BootstrapEvent::Through);
    assert!(matches!(bootstrap_step(&b), BootstrapStep::UploadSignature));
    let b = bootstrap(b, BootstrapEvent::Through);
    assert!(matches!(bootstrap_step(&b), BootstrapStep::QueryKeys));
    let b = bootstrap(b, BootstrapEvent::Through);
    assert!(fetches(&b, "m.megolm_backup.v1"));
    let b = bootstrap(b, secret("b"));
    assert!(matches!(bootstrap_step(&b), BootstrapStep::Restore(s) if s == "b"));
    let restored = BackupRestoreReport {
        backup_version: Some("1".to_owned()),
        enabled: true,
        total_keys_in_backup: 3,
        imported_keys: 2,
    };
    let b = bootstrap(b, BootstrapEvent::Restored(restored));
    assert!(matches!(bootstrap_step(&b), BootstrapStep::Pump));
    let b = bootstrap(b, BootstrapEvent::Through);
    assert!(matches!(bootstrap_step(&b), BootstrapStep::Report));
    assert!(b.stage == BootstrapStage::Finished);
    let r = bootstrap_report(b);
    assert_eq!(
        write_json(&r.to_json()),
        r#"{"backup":{"backup_version":"1","enabled":true,"imported_keys":2,"total_keys_in_backup":3},"imported_master_key":true,"imported_self_signing_key":true,"imported_user_signing_key":false,"own_device_signed":true}"#
    );
}

#[test]
fn bootstrap_takes_its_turns() {
    let mut b = start_bootstrap();
    b.stage = BootstrapStage::Import;
    let b = bootstrap(b, BootstrapEvent::Imported { has_self_signing: false });
    assert!(b.stage == BootstrapStage::BackupKey);
    assert_eq!(secret_name(b.stage), Some("m.megolm_backup.v1".to_owned()));
    assert_eq!(secret_name(BootstrapStage::Open), None);
    let b = bootstrap(b, BootstrapEvent::Secret(None));
    assert!(matches!(bootstrap_step(&b), BootstrapStep::Pump));
    let b = bootstrap(b, BootstrapEvent::Failed);
    assert!(b.stage == BootstrapStage::Failed);
    assert!(matches!(bootstrap_step(&b), BootstrapStep::Stop));
    let r = bootstrap_report(b);
    assert_eq!(
        write_json(&r.to_json()),
        r#"{"backup":{"backup_version":null,"enabled":false,"imported_keys":0,"total_keys_in_backup":0},"imported_master_key":false,"imported_self_signing_key":false,"imported_user_signing_key":false,"own_device_signed":false}"#
    );
    let f = stage_failure(BootstrapStage::Sign, Failure::new("x"));
    assert_eq!(f.chain_text(), "self-signing device failed: x");
}

const BACKUP_KEY: &str = "Ha9cklU/9NqFo9WKdVfGzmqUL/9wlkdxfEitbSIPVXw";

const SESSION: &str = r#"{"first_message_index":0,"forwarded_count":0,"is_verified":false,"session_data":{"ephemeral":"HlLi76oV6wxHz3PCqE/bxJi6yF1HnYz5Dq3T+d/KpRw","ciphertext":"MuM8E3Yc6TSAvhVGb77rQ++jE6p9dRepx63/3YPD2wACKAppkZHeFrnTH6wJ/HSyrmzo7HfwqVl6tKNpfooSTHqUf6x1LHz+h4B/Id5ITO1WYt16AaI40LOnZqTkJZCfSPuE2oxalwEHnCS3biWybutcnrBFPR3LMtaeHvvkb+k3ny9l5ZpsU9G7vCm3XoeYkWfLekWXvDhbqWrylXD0+CNUuaQJ/S527TzLd4XKctqVjjO/cCH7q+9utt9WJAfK8LGaWT/mZ3AeWjf5kiqOpKKf5Cn4n5SSil5p/pvGYmjnURvZSEeQIzHgvunIBEPtzK/MYEPOXe/P5achNGlCx+5N19Ftyp9TFaTFlTWCTi0mpD7ePfCNISrwpozAz9HZc0OhA8+1aSc7rhYFIeAYXFU326NuFIFHI5pvpSxjzPQlOA+mavIKmiRAtjlLw11IVKTxgrdT4N8lXeMr4ndCSmvIkAzFMo1uZA4fzjiAdQJE4/2WeXFNNpvdfoYmX8Zl9CAYjpSO5HvpwkAbk4/iLEH3hDfCVUwDfMh05PdGLnxeRpiEFWSMSsJNp+OWAA+5JsF41BoRGrxoXXT+VKqlUDONd+O296Psu8Q+d8/S618","mac":"GtMrurhDTwo"}}"#;

fn version_body(key: &str) -> Json {
    let info = BackupDecryptionKey::from_base64(key).unwrap().to_backup_info();
    let mut body = json(&serde_json::to_string(&info).unwrap());
    body.put("version", Json::text("v 1"));
    body.put("count", Json::Natural(3));
    body
}

fn version_of(key: &str) -> RestoreEvent {
    RestoreEvent::Version(Ok(Reply { status: 200, body: version_body(key) }))
}

fn run(events: Vec<RestoreEvent>) -> RestoreStep {
    let mut state = RestoreState::Start;
    let mut last = RestoreStep::Stop;
    for e in events {
        let (next, step) = restore_from_backup(BACKUP_KEY, state, e);
        state = next;
        last = step;
    }
    last
}

#[test]
fn backups_are_restored() {
    assert!(matches!(
        run(vec![RestoreEvent::Begin]),
        RestoreStep::FetchVersion(r) if r.path == "/_matrix/client/v3/room_keys/version"
    ));
    let start = || vec![RestoreEvent::Begin, version_of(BACKUP_KEY)];
    assert!(matches!(run(start()), RestoreStep::LoadStored));
    let mut events = start();
    events.push(RestoreEvent::Stored(Ok(Some("old".to_owned()))));
    assert!(matches!(run(events), RestoreStep::Enable(v) if v == "v 1"));
    let mut events = start();
    events.push(RestoreEvent::Stored(Ok(Some("v 1".to_owned()))));
    assert!(matches!(
        run(events),
        RestoreStep::Download(r) if r.path == "/_matrix/client/v3/room_keys/keys?version=v%201"
    ));
    let body = format!(
        r#"{{"rooms":{{"!r:x":{{"sessions":{{"s1":{SESSION},"s2":{{}}}}}},"!q:x":{{"sessions":{{"s3":{{"odd":1}}}}}}}}}}"#
    );
    let full = || {
        let mut events = start();
        events.push(RestoreEvent::Stored(Ok(None)));
        events.push(RestoreEvent::Enabled(Ok(())));
        events.push(RestoreEvent::Downloaded(reply(200, &body)));
        events
    };
    match run(full()) {
        RestoreStep::Import { keys, version } => {
            assert_eq!(version, "v 1");
            assert_eq!(keys.len(), 1);
            assert_eq!(keys[0].get_text("room_id"), Some("!r:x".to_owned()));
            assert_eq!(keys[0].get_text("session_id"), Some("s1".to_owned()));
            assert_eq!(keys[0].get_text("algorithm"), Some("m.megolm.v1.aes-sha2".to_owned()));
        }
        _ => panic!("no import"),
    }
    let mut events = full();
    events.push(RestoreEvent::Imported(Ok(1)));
    match run(events) {
        RestoreStep::Finish(Ok(r)) => {
            assert_eq!(r.backup_version, Some("v 1".to_owned()));
            assert!(r.enabled);
            assert_eq!((r.total_keys_in_backup, r.imported_keys), (3, 1));
        }
        _ => panic!("no report"),
    }
}

#[test]
fn backup_failures_are_reported() {
    let message = |events: Vec<RestoreEvent>| match run(events) {
        RestoreStep::Finish(Err(f)) => f.message(),
        _ => panic!("no failure"),
    };
    let version =
        |r: Result<Reply, Failure>| vec![RestoreEvent::Begin, RestoreEvent::Version(r)];
    let (_, step) = restore_from_backup("i", RestoreState::Start, RestoreEvent::Begin);
    assert!(matches!(
        step,
        RestoreStep::Finish(Err(f))
            if f.message() == "m.megolm_backup.v1 secret is not a valid backup key"
    ));
    assert!(matches!(
        run(version(reply(404, "{}"))),
        RestoreStep::Finish(Ok(BackupRestoreReport { enabled: false, total_keys_in_backup: 0, .. }))
    ));
    assert_eq!(
        message(version(reply(500, "{}"))),
        "room_keys/version failed: 500 Internal Server Error {}"
    );
    assert_eq!(
        message(version(reply(200, "{}"))),
        "malformed room_keys/version response"
    );
    assert_eq!(message(version(Err(Failure::new("down")))), "down");
    let other = BackupDecryptionKey::new().to_base64();
    assert_eq!(
        message(vec![RestoreEvent::Begin, version_of(&other)]),
        "the recovered backup key does not match the active server-side backup (version v 1); was the backup reset after the recovery key was created?"
    );
    let mut bad = version_body(BACKUP_KEY);
    bad.put("auth_data", Json::Null);
    assert_eq!(
        message(version(Ok(Reply { status: 200, body: bad }))),
        "malformed backup auth_data"
    );
    let f = |body: &str| current_backup_version(reply(200, body)).err().unwrap().chain_text();
    let prefix = "malformed room_keys/version response: ";
    assert_eq!(
        f(r#"{"version":1,"algorithm":"a","auth_data":{}}"#),
        format!("{prefix}there is no text under `version`")
    );
    assert_eq!(
        f(r#"{"version":"1","auth_data":{}}"#),
        format!("{prefix}there is no text under `algorithm`")
    );
    assert_eq!(
        f(r#"{"version":"1","algorithm":"a"}"#),
        format!("{prefix}there is no `auth_data`")
    );
    let info =
        current_backup_version(reply(200, r#"{"version":"1","algorithm":"a","auth_data":{}}"#));
    let info = info.ok().unwrap().unwrap();
    assert_eq!((info.version.as_str(), info.algorithm.as_str()), ("1", "a"));
    assert!(current_backup_version(reply(404, "{}")).ok().unwrap().is_none());
    assert!(matches!(
        key_matched("v".to_owned(), KeyMatch::Matches),
        (RestoreState::Stored { .. }, RestoreStep::LoadStored)
    ));
    let enabled = || {
        vec![
            RestoreEvent::Begin,
            version_of(BACKUP_KEY),
            RestoreEvent::Stored(Ok(None)),
            RestoreEvent::Enabled(Ok(())),
        ]
    };
    let mut events = enabled();
    events.push(RestoreEvent::Downloaded(reply(403, "{}")));
    assert_eq!(message(events), "downloading room keys failed: 403 Forbidden {}");
    let mut events = enabled();
    events.push(RestoreEvent::Downloaded(reply(200, "{}")));
    assert_eq!(message(events), "malformed room_keys/keys response");
    let mut events = enabled();
    events.push(RestoreEvent::Downloaded(reply(200, r#"{"rooms":{}}"#)));
    events.push(RestoreEvent::Imported(Err(Failure::new("x"))));
    assert_eq!(message(events), "importing room keys failed");
}
