//! Feeding the crypto machine: its outgoing requests, sent one by one.

use crate::failure::Failure;
use crate::json::{Json, JsonView};
use crate::json_text;
use crate::json_text::write_bytes;
use crate::percent;
use crate::percent::enc;
use crate::text;
use crate::wire;
use crate::wire::{is_success, reply_failure, HttpRequest, Reply, RequestView};
use ruma::api::IncomingResponse;
use vstd::prelude::*;
use vstd::string::*;
use vstd::utf8::*;

verus! {

/// How far a sender's device must be trusted for its messages to be decrypted.
#[derive(PartialEq, Eq, Structural, Clone, Copy)]
pub enum TrustRequirement {
    Untrusted,
    CrossSignedOrLegacy,
    CrossSigned,
}

/// How messages are decrypted.
#[derive(PartialEq, Eq, Structural, Clone, Copy)]
pub struct DecryptionSettings {
    pub sender_device_trust_requirement: TrustRequirement,
}

/// The settings that are used everywhere: messages are decrypted whether or not
/// their sender is trusted, as the client could not show the difference, and a
/// refusal would only hide the message.
pub fn decryption_settings() -> (r: DecryptionSettings)
    ensures
        r.sender_device_trust_requirement == TrustRequirement::Untrusted,
{
    DecryptionSettings { sender_device_trust_requirement: TrustRequirement::Untrusted }
}

/// A message to devices.
pub struct ToDeviceRequest {
    pub event_type: String,
    pub txn_id: String,
    pub messages: Json,
}

/// A claim of one-time keys.
pub struct KeysClaimRequest {
    pub one_time_keys: Json,
    /// How long other servers are waited for, in milliseconds.
    pub timeout: Option<u64>,
}

/// A message to a room.
pub struct RoomMessageRequest {
    pub room_id: String,
    pub event_type: String,
    pub txn_id: String,
    pub content: Json,
}

/// A request of the crypto machine, its keys and messages as JSON.
pub enum OutgoingRequest {
    KeysUpload { own_keys: Option<Json>, one_time_keys: Json, fallback_keys: Json },
    KeysQuery { device_keys: Json, timeout: Option<u64> },
    KeysClaim(KeysClaimRequest),
    ToDevice(ToDeviceRequest),
    SignatureUpload { signed_keys: Json },
    RoomMessage(RoomMessageRequest),
    /// Room keys for the server-side backup of the given version.
    KeysBackup { version: String, rooms: Json },
}

/// The object with `value` under `key`, if there is a value.
pub open spec fn with_some(j: JsonView, key: Seq<char>, value: Option<JsonView>) -> JsonView {
    match value {
        Some(v) => j.with(key, v),
        None => j,
    }
}

/// The value of a timeout.
pub open spec fn timeout_json(timeout: Option<u64>) -> Option<JsonView> {
    match timeout {
        Some(t) => Some(JsonView::Natural(t)),
        None => None,
    }
}

/// Keys, unless there are none.
pub open spec fn unless_empty(keys: JsonView) -> Option<JsonView> {
    if keys == JsonView::empty_object() {
        None
    } else {
        Some(keys)
    }
}

/// The path that messages to devices are sent to.
pub open spec fn to_device_url(event_type: Seq<char>, txn_id: Seq<char>) -> Seq<char> {
    "/_matrix/client/v3/sendToDevice/"@ + percent::encoded_text(event_type) + "/"@
        + percent::encoded_text(txn_id)
}

/// The path that a message to a room is sent to.
pub open spec fn send_url(room: Seq<char>, event_type: Seq<char>, txn_id: Seq<char>) -> Seq<char> {
    "/_matrix/client/v3/rooms/"@ + percent::encoded_text(room) + "/send/"@
        + percent::encoded_text(event_type) + "/"@ + percent::encoded_text(txn_id)
}

/// The request that sends a message to devices.
pub open spec fn to_device_http(r: ToDeviceRequest) -> RequestView {
    wire::body_request(
        "PUT"@,
        to_device_url(r.event_type@, r.txn_id@),
        JsonView::empty_object().with("messages"@, r.messages@),
    )
}

/// The request that claims one-time keys.
pub open spec fn keys_claim_http(r: KeysClaimRequest) -> RequestView {
    wire::body_request(
        "POST"@,
        "/_matrix/client/v3/keys/claim"@,
        with_some(
            JsonView::empty_object().with("one_time_keys"@, r.one_time_keys@),
            "timeout"@,
            timeout_json(r.timeout),
        ),
    )
}

/// The request to the homeserver that a request of the crypto machine asks for.
pub open spec fn outgoing_http(r: OutgoingRequest) -> RequestView {
    match r {
        OutgoingRequest::KeysUpload { own_keys, one_time_keys, fallback_keys } => {
            let body = with_some(
                JsonView::empty_object(),
                "device_keys"@,
                wire::body_view(own_keys),
            );
            let body = with_some(body, "one_time_keys"@, unless_empty(one_time_keys@));
            let body = with_some(body, "fallback_keys"@, unless_empty(fallback_keys@));
            wire::body_request("POST"@, "/_matrix/client/v3/keys/upload"@, body)
        },
        OutgoingRequest::KeysQuery { device_keys, timeout } => wire::body_request(
            "POST"@,
            "/_matrix/client/v3/keys/query"@,
            with_some(
                JsonView::empty_object().with("device_keys"@, device_keys@),
                "timeout"@,
                timeout_json(timeout),
            ),
        ),
        OutgoingRequest::KeysClaim(r) => keys_claim_http(r),
        OutgoingRequest::ToDevice(r) => to_device_http(r),
        OutgoingRequest::SignatureUpload { signed_keys } => wire::body_request(
            "POST"@,
            "/_matrix/client/v3/keys/signatures/upload"@,
            signed_keys@,
        ),
        OutgoingRequest::RoomMessage(r) => wire::body_request(
            "PUT"@,
            send_url(r.room_id@, r.event_type@, r.txn_id@),
            r.content@,
        ),
        OutgoingRequest::KeysBackup { version, rooms } => wire::body_request(
            "PUT"@,
            "/_matrix/client/v3/room_keys/keys?version="@ + percent::encoded_text(version@),
            JsonView::empty_object().with("rooms"@, rooms@),
        ),
    }
}

/// The path that messages to devices are sent to.
fn to_device_path(event_type: &str, txn_id: &str) -> (r: String)
    ensures
        r@ == to_device_url(event_type@, txn_id@),
{
    "/_matrix/client/v3/sendToDevice/".to_owned().concat(enc(event_type).as_str()).concat(
        "/",
    ).concat(enc(txn_id).as_str())
}

/// The path that a message to a room is sent to.
pub(crate) fn send_path(room: &str, event_type: &str, txn_id: &str) -> (r: String)
    ensures
        r@ == send_url(room@, event_type@, txn_id@),
{
    "/_matrix/client/v3/rooms/".to_owned().concat(enc(room).as_str()).concat("/send/").concat(
        enc(event_type).as_str(),
    ).concat("/").concat(enc(txn_id).as_str())
}

/// The request that sends a message to devices.
pub fn send_to_device(request: &ToDeviceRequest) -> (r: HttpRequest)
    ensures
        r@ == to_device_http(*request),
{
    let mut body = Json::object();
    body.put("messages", request.messages.copy());
    HttpRequest::with_body(
        "PUT",
        to_device_path(request.event_type.as_str(), request.txn_id.as_str()),
        body,
    )
}

/// The request that claims one-time keys.
pub fn send_keys_claim(request: &KeysClaimRequest) -> (r: HttpRequest)
    ensures
        r@ == keys_claim_http(*request),
{
    let mut body = Json::object();
    body.put("one_time_keys", request.one_time_keys.copy());
    match request.timeout {
        Some(t) => body.put("timeout", Json::Natural(t)),
        None => {},
    }
    HttpRequest::with_body("POST", "/_matrix/client/v3/keys/claim".to_owned(), body)
}

fn put_keys(body: &mut Json, key: &str, keys: &Json)
    ensures
        final(body)@ == with_some(old(body)@, key@, unless_empty(keys@)),
{
    if !keys.is_empty_object() {
        body.put(key, keys.copy());
    }
}

/// The request to the homeserver that a request of the crypto machine asks for. What comes
/// of the reply, `mark_as_sent` says.
pub fn send_and_mark(request: &OutgoingRequest) -> (r: HttpRequest)
    ensures
        r@ == outgoing_http(*request),
{
    match request {
        OutgoingRequest::KeysUpload { own_keys, one_time_keys, fallback_keys } => {
            let mut body = Json::object();
            match own_keys {
                Some(keys) => body.put("device_keys", keys.copy()),
                None => {},
            }
            put_keys(&mut body, "one_time_keys", one_time_keys);
            put_keys(&mut body, "fallback_keys", fallback_keys);
            HttpRequest::with_body("POST", "/_matrix/client/v3/keys/upload".to_owned(), body)
        },
        OutgoingRequest::KeysQuery { device_keys, timeout } => {
            let mut body = Json::object();
            body.put("device_keys", device_keys.copy());
            match timeout {
                Some(t) => body.put("timeout", Json::Natural(*t)),
                None => {},
            }
            HttpRequest::with_body("POST", "/_matrix/client/v3/keys/query".to_owned(), body)
        },
        OutgoingRequest::KeysClaim(r) => send_keys_claim(r),
        OutgoingRequest::ToDevice(r) => send_to_device(r),
        OutgoingRequest::SignatureUpload { signed_keys } => HttpRequest::with_body(
            "POST",
            "/_matrix/client/v3/keys/signatures/upload".to_owned(),
            signed_keys.copy(),
        ),
        OutgoingRequest::RoomMessage(r) => HttpRequest::with_body(
            "PUT",
            send_path(r.room_id.as_str(), r.event_type.as_str(), r.txn_id.as_str()),
            r.content.copy(),
        ),
        OutgoingRequest::KeysBackup { version, rooms } => {
            let mut body = Json::object();
            body.put("rooms", rooms.copy());
            HttpRequest::with_body(
                "PUT",
                "/_matrix/client/v3/room_keys/keys?version=".to_owned().concat(
                    enc(version.as_str()).as_str(),
                ),
                body,
            )
        },
    }
}

/// The view of a result that is a JSON value.
pub open spec fn json_result(r: Result<Json, Failure>) -> Result<JsonView, Seq<Seq<char>>> {
    match r {
        Ok(j) => Ok(j@),
        Err(f) => Err(f@),
    }
}

/// What comes of a reply: its body where it reports success, and a failure where it
/// does not, or where there is none.
pub open spec fn accepted_body(
    prefix: Seq<char>,
    separator: Seq<char>,
    reply: Result<Reply, Failure>,
) -> Result<JsonView, Seq<Seq<char>>> {
    match reply {
        Ok(reply) => if wire::success(reply.status) {
            Ok(reply.body@)
        } else {
            Err(seq![wire::reply_message(prefix, reply.status, separator, reply.body@)])
        },
        Err(f) => Err(f@),
    }
}

/// What comes of a reply.
pub(crate) fn accepted(prefix: &str, separator: &str, reply: Result<Reply, Failure>) -> (r: Result<
    Json,
    Failure,
>)
    ensures
        json_result(r) == accepted_body(prefix@, separator@, reply),
{
    match reply {
        Ok(reply) => if is_success(reply.status) {
            Ok(reply.body)
        } else {
            Err(reply_failure(prefix, &reply, separator))
        },
        Err(f) => Err(f),
    }
}

/// A body as it came over the wire.
pub open spec fn body_bytes(body: JsonView) -> Seq<u8> {
    encode_utf8(json_text::json_text(body))
}

/// A body that is read as a response, by what is objected to in it.
pub open spec fn read_body(body: JsonView, objection: Option<Seq<char>>) -> Result<
    JsonView,
    Seq<Seq<char>>,
> {
    match objection {
        Some(e) => Err(seq![e]),
        None => Ok(body),
    }
}

/// A body that is read as a response, by what is objected to in it.
pub(crate) fn readable(body: Json, objection: Option<String>) -> (r: Result<Json, Failure>)
    ensures
        json_result(r) == read_body(body@, text::opt_text(objection)),
{
    match objection {
        Some(e) => Err(Failure::new(e.as_str())),
        None => Ok(body),
    }
}

/// What `ruma` objects to in the body of a successful reply to an upload of keys, if anything.
pub uninterp spec fn keys_upload_error(body: Seq<u8>) -> Option<Seq<char>>;

/// What `ruma` objects to in the body of a successful reply to a query of keys, if anything.
pub uninterp spec fn keys_query_error(body: Seq<u8>) -> Option<Seq<char>>;

/// What `ruma` objects to in the body of a successful reply to a claim of one-time keys, if anything.
pub uninterp spec fn keys_claim_error(body: Seq<u8>) -> Option<Seq<char>>;

/// What `ruma` objects to in the body of a successful reply to an upload of signatures, if anything.
pub uninterp spec fn signature_upload_error(body: Seq<u8>) -> Option<Seq<char>>;

/// What `ruma` objects to in the body of a successful reply to a message to a room, if anything.
pub uninterp spec fn room_message_error(body: Seq<u8>) -> Option<Seq<char>>;

/// What `ruma` objects to in the body of a successful reply to an upload of room keys to the backup, if anything.
pub uninterp spec fn keys_backup_error(body: Seq<u8>) -> Option<Seq<char>>;

/// `ruma::api::client::keys::upload_keys::v3::Response` of a successful reply with the given body: what
/// its `try_from_http_response` objects to.
#[verifier::external_body]
pub(crate) fn keys_upload_objection(body: Vec<u8>) -> (r: Option<String>)
    ensures
        text::opt_text(r) == keys_upload_error(body@),
{
    let response = match http::Response::builder().status(200).body(body) {
        Ok(response) => response,
        Err(e) => return Some(e.to_string()),
    };
    ruma::api::client::keys::upload_keys::v3::Response::try_from_http_response(response).err().map(
        |e| e.to_string(),
    )
}

/// `ruma::api::client::keys::get_keys::v3::Response` of a successful reply with the given body: what
/// its `try_from_http_response` objects to.
#[verifier::external_body]
pub(crate) fn keys_query_objection(body: Vec<u8>) -> (r: Option<String>)
    ensures
        text::opt_text(r) == keys_query_error(body@),
{
    let response = match http::Response::builder().status(200).body(body) {
        Ok(response) => response,
        Err(e) => return Some(e.to_string()),
    };
    ruma::api::client::keys::get_keys::v3::Response::try_from_http_response(response).err().map(
        |e| e.to_string(),
    )
}

/// `ruma::api::client::keys::claim_keys::v3::Response` of a successful reply with the given body: what
/// its `try_from_http_response` objects to.
#[verifier::external_body]
pub(crate) fn keys_claim_objection(body: Vec<u8>) -> (r: Option<String>)
    ensures
        text::opt_text(r) == keys_claim_error(body@),
{
    let response = match http::Response::builder().status(200).body(body) {
        Ok(response) => response,
        Err(e) => return Some(e.to_string()),
    };
    ruma::api::client::keys::claim_keys::v3::Response::try_from_http_response(response).err().map(
        |e| e.to_string(),
    )
}

/// `ruma::api::client::keys::upload_signatures::v3::Response` of a successful reply with the given body: what
/// its `try_from_http_response` objects to.
#[verifier::external_body]
pub(crate) fn signature_upload_objection(body: Vec<u8>) -> (r: Option<String>)
    ensures
        text::opt_text(r) == signature_upload_error(body@),
{
    let response = match http::Response::builder().status(200).body(body) {
        Ok(response) => response,
        Err(e) => return Some(e.to_string()),
    };
    ruma::api::client::keys::upload_signatures::v3::Response::try_from_http_response(response).err().map(
        |e| e.to_string(),
    )
}

/// `ruma::api::client::message::send_message_event::v3::Response` of a successful reply with the given body: what
/// its `try_from_http_response` objects to.
#[verifier::external_body]
pub(crate) fn room_message_objection(body: Vec<u8>) -> (r: Option<String>)
    ensures
        text::opt_text(r) == room_message_error(body@),
{
    let response = match http::Response::builder().status(200).body(body) {
        Ok(response) => response,
        Err(e) => return Some(e.to_string()),
    };
    ruma::api::client::message::send_message_event::v3::Response::try_from_http_response(response).err().map(
        |e| e.to_string(),
    )
}

/// `ruma::api::client::backup::add_backup_keys::v3::Response` of a successful reply with the given body: what
/// its `try_from_http_response` objects to.
#[verifier::external_body]
pub(crate) fn keys_backup_objection(body: Vec<u8>) -> (r: Option<String>)
    ensures
        text::opt_text(r) == keys_backup_error(body@),
{
    let response = match http::Response::builder().status(200).body(body) {
        Ok(response) => response,
        Err(e) => return Some(e.to_string()),
    };
    ruma::api::client::backup::add_backup_keys::v3::Response::try_from_http_response(response).err().map(
        |e| e.to_string(),
    )
}

/// `ruma::api::client::to_device::send_event_to_device::v3::Response` of a successful reply
/// with the given body: what its `try_from_http_response` objects to. The response holds
/// nothing, and the body is not looked at.
#[verifier::external_body]
fn to_device_objection(body: Vec<u8>) -> (r: Option<String>)
    ensures
        r is None,
{
    let response = match http::Response::builder().status(200).body(body) {
        Ok(response) => response,
        Err(e) => return Some(e.to_string()),
    };
    ruma::api::client::to_device::send_event_to_device::v3::Response::try_from_http_response(
        response,
    ).err().map(|e| e.to_string())
}

/// What is objected to in the body of a successful reply to a request, if anything: it has
/// to be the response to a request of that kind.
pub open spec fn response_error(request: OutgoingRequest, body: Seq<u8>) -> Option<Seq<char>> {
    match request {
        OutgoingRequest::KeysUpload { .. } => keys_upload_error(body),
        OutgoingRequest::KeysQuery { .. } => keys_query_error(body),
        OutgoingRequest::KeysClaim(_) => keys_claim_error(body),
        OutgoingRequest::ToDevice(_) => None,
        OutgoingRequest::SignatureUpload { .. } => signature_upload_error(body),
        OutgoingRequest::RoomMessage(_) => room_message_error(body),
        OutgoingRequest::KeysBackup { .. } => keys_backup_error(body),
    }
}

fn response_objection(request: &OutgoingRequest, body: Vec<u8>) -> (r: Option<String>)
    ensures
        text::opt_text(r) == response_error(*request, body@),
{
    match request {
        OutgoingRequest::KeysUpload { .. } => keys_upload_objection(body),
        OutgoingRequest::KeysQuery { .. } => keys_query_objection(body),
        OutgoingRequest::KeysClaim(_) => keys_claim_objection(body),
        OutgoingRequest::ToDevice(_) => to_device_objection(body),
        OutgoingRequest::SignatureUpload { .. } => signature_upload_objection(body),
        OutgoingRequest::RoomMessage(_) => room_message_objection(body),
        OutgoingRequest::KeysBackup { .. } => keys_backup_objection(body),
    }
}

/// What comes of the reply to an outgoing request: the body to mark it as sent with. Where
/// the reply is a refusal, or its body is not the response to such a request, the request
/// is not marked, and stays queued.
pub open spec fn marked_body(request: OutgoingRequest, reply: Result<Reply, Failure>) -> Result<
    JsonView,
    Seq<Seq<char>>,
> {
    match accepted_body("upstream returned "@, ": "@, reply) {
        Err(f) => Err(f),
        Ok(body) => read_body(body, response_error(request, body_bytes(body))),
    }
}

/// What comes of the reply to an outgoing request: the body to mark it as sent with, or why
/// it is not marked.
pub fn mark_as_sent(request: &OutgoingRequest, reply: Result<Reply, Failure>) -> (r: Result<
    Json,
    Failure,
>)
    ensures
        json_result(r) == marked_body(*request, reply),
{
    match accepted("upstream returned ", ": ", reply) {
        Ok(body) => {
            let objection = response_objection(request, write_bytes(&body));
            readable(body, objection)
        },
        Err(f) => Err(f),
    }
}

/// A request is marked as sent only with a reply that reports success, and with a body
/// that is the response to a request of its kind; and then it is.
pub proof fn only_answered_requests_are_marked(
    request: OutgoingRequest,
    reply: Result<Reply, Failure>,
)
    ensures
        marked_body(request, reply) is Ok <==> (reply matches Ok(answer) && wire::success(
            answer.status,
        ) && response_error(request, body_bytes(answer.body@)) is None),
        marked_body(request, reply) matches Ok(body) ==> body == reply->Ok_0.body@,
{
}

/// What comes of the reply to a claim of one-time keys.
pub fn keys_claim_sent(reply: Result<Reply, Failure>) -> (r: Result<Json, Failure>)
    ensures
        json_result(r) == match accepted_body("keys/claim returned "@, ": "@, reply) {
            Err(f) => Err(f),
            Ok(body) => read_body(body, keys_claim_error(body_bytes(body))),
        },
{
    match accepted("keys/claim returned ", ": ", reply) {
        Ok(body) => {
            let objection = keys_claim_objection(write_bytes(&body));
            readable(body, objection)
        },
        Err(f) => Err(f),
    }
}

/// What comes of the reply to a message to devices.
pub fn to_device_sent(reply: Result<Reply, Failure>) -> (r: Result<Json, Failure>)
    ensures
        json_result(r) == accepted_body("sendToDevice returned "@, ": "@, reply),
{
    match accepted("sendToDevice returned ", ": ", reply) {
        Ok(body) => {
            let objection = to_device_objection(write_bytes(&body));
            readable(body, objection)
        },
        Err(f) => Err(f),
    }
}

/// Where the pump stands: it drains the machine's queue of outgoing requests, and
/// then the room keys that are not backed up yet.
#[derive(PartialEq, Eq, Structural, Clone, Copy)]
pub enum PumpState {
    /// It waits for the queue.
    Queue,
    /// It waits for the request at place `next` of a batch to be sent.
    Sending { batch: usize, next: usize },
    /// It waits for room keys to back up.
    Backup,
    /// It waits for room keys to be backed up.
    BackingUp,
    /// It has come to an end.
    Stopped,
}

/// What has come in.
#[derive(PartialEq, Eq, Structural, Clone, Copy)]
pub enum PumpEvent {
    /// A queue of this many requests, or none because it could not be read.
    Queue(Option<usize>),
    /// A request was sent and marked, or was not.
    Sent(bool),
    /// There are room keys to back up, or there are none.
    Backup(bool),
}

/// What is to be done next.
#[derive(PartialEq, Eq, Structural, Clone, Copy)]
pub enum PumpStep {
    /// Read the queue.
    FetchQueue,
    /// Send the request at this place of the batch.
    Send(usize),
    /// Look for room keys to back up.
    FetchBackup,
    /// Back the room keys up.
    SendBackup,
    /// Nothing.
    Stop,
}

/// The next state of the pump. It stops at the first failure, as what is left stays
/// queued for the next time.
pub open spec fn pumped(state: PumpState, event: PumpEvent) -> (PumpState, PumpStep) {
    match (state, event) {
        (PumpState::Queue, PumpEvent::Queue(Some(n))) => if n == 0 {
            (PumpState::Backup, PumpStep::FetchBackup)
        } else {
            (PumpState::Sending { batch: n, next: 0 }, PumpStep::Send(0))
        },
        (PumpState::Sending { batch, next }, PumpEvent::Sent(true)) => if next + 1 < batch {
            (
                PumpState::Sending { batch, next: (next + 1) as usize },
                PumpStep::Send((next + 1) as usize),
            )
        } else {
            (PumpState::Queue, PumpStep::FetchQueue)
        },
        (PumpState::Backup, PumpEvent::Backup(true)) => (PumpState::BackingUp, PumpStep::SendBackup),
        (PumpState::BackingUp, PumpEvent::Sent(true)) => (PumpState::Backup, PumpStep::FetchBackup),
        _ => (PumpState::Stopped, PumpStep::Stop),
    }
}

/// Starts the pump.
pub fn start_pump() -> (r: (PumpState, PumpStep))
    ensures
        r == (PumpState::Queue, PumpStep::FetchQueue),
{
    (PumpState::Queue, PumpStep::FetchQueue)
}

/// Moves the pump on.
pub fn pump(state: PumpState, event: PumpEvent) -> (r: (PumpState, PumpStep))
    ensures
        r == pumped(state, event),
{
    match (state, event) {
        (PumpState::Queue, PumpEvent::Queue(Some(n))) => if n == 0 {
            (PumpState::Backup, PumpStep::FetchBackup)
        } else {
            (PumpState::Sending { batch: n, next: 0 }, PumpStep::Send(0))
        },
        (PumpState::Sending { batch, next }, PumpEvent::Sent(true)) => if next < batch && next + 1
            < batch {
            (PumpState::Sending { batch, next: next + 1 }, PumpStep::Send(next + 1))
        } else {
            (PumpState::Queue, PumpStep::FetchQueue)
        },
        (PumpState::Backup, PumpEvent::Backup(true)) => (PumpState::BackingUp, PumpStep::SendBackup),
        (PumpState::BackingUp, PumpEvent::Sent(true)) => (PumpState::Backup, PumpStep::FetchBackup),
        _ => (PumpState::Stopped, PumpStep::Stop),
    }
}

/// The pump behind a queue of `n` requests of which `k` were sent.
pub open spec fn after_sending(n: usize, k: nat) -> (PumpState, PumpStep)
    decreases k,
{
    if k == 0 {
        pumped(PumpState::Queue, PumpEvent::Queue(Some(n)))
    } else {
        pumped(after_sending(n, (k - 1) as nat).0, PumpEvent::Sent(true))
    }
}

/// A batch is sent in order, each request once the one before it is through, and
/// when all of it is sent the queue is read again.
pub proof fn batch_is_sent_in_order(n: usize, k: nat)
    requires
        0 < n,
        k <= n,
    ensures
        k < n ==> after_sending(n, k) == (
            PumpState::Sending { batch: n, next: k as usize },
            PumpStep::Send(k as usize),
        ),
        k == n ==> after_sending(n, k) == (PumpState::Queue, PumpStep::FetchQueue),
    decreases k,
{
    if k > 0 {
        batch_is_sent_in_order(n, (k - 1) as nat);
    }
}

/// The pump stops at a failure, whatever it was doing, and then stays stopped.
pub proof fn failure_stops_pump(state: PumpState, event: PumpEvent)
    requires
        event == PumpEvent::Queue(None) || event == PumpEvent::Sent(false) || state
            == PumpState::Stopped,
    ensures
        pumped(state, event) == (PumpState::Stopped, PumpStep::Stop),
{
}

} // verus!
