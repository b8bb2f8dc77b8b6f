//! Encrypting what the client sends.

use crate::crypto::machine;
use crate::crypto::machine::{
    accepted, readable, room_message_objection, send_path, RoomMessageRequest,
};
use crate::crypto::media;
use crate::crypto::media::{
    attachment_uri, reupload_downloaded, reupload_plaintext_if_needed, reuploaded,
    rewrite_content_for_encrypted_room, EntryView, MediaEntry, RawUpload, Reupload,
};
use crate::crypto::rooms;
use crate::crypto::rooms::RoomSettings;
use crate::error::{ProxyError, ProxyErrorView};
use crate::failure::Failure;
use crate::ids;
use crate::ids::is_room_id;
use crate::json::{Json, JsonView};
use crate::json_text;
use crate::json_text::{parse_json, write_bytes};
use crate::proxy::intercept;
use crate::proxy::intercept::raw_response;
use crate::text;
use crate::text::{copy_texts, same_text};
use crate::wire;
use crate::wire::{json_content_type, HttpRequest, Reply, RequestView, Response, ResponseView};
use vstd::prelude::*;
use vstd::string::*;
use vstd::utf8::*;

verus! {

/// How many bytes the body of a message may have.
pub const MAX_SEND_BYTES: usize = 4_194_304;

/// A message that the client sends to a room.
pub struct SendRequest {
    pub room_id: String,
    pub event_type: String,
    pub txn_id: String,
    /// The path and query that the client used.
    pub path: String,
}

/// Where the handling of a message stands.
pub enum SendState {
    /// Nothing has been done yet.
    Start,
    /// It waits for whether the room is encrypted.
    Checking,
    /// It waits for the body.
    Reading { encrypted: bool },
    /// It waits for the key of the attachment.
    LookingUp { encrypted: bool, content: Json },
    /// It waits for the encrypted content.
    Encrypting,
    /// It waits for the encrypted attachment, which must go to an unencrypted room.
    Downloading { content: Json, entry: MediaEntry },
    /// It waits for the attachment to be uploaded in plain.
    Uploading { content: Json },
    /// It waits for the homeserver's reply.
    Forwarding,
    /// It has come to an end.
    Done,
}

/// What has come in.
pub enum SendEvent {
    Begin,
    /// Whether the room is encrypted, or why that is not known.
    Checked(Result<bool, Failure>),
    /// The body, or why it could not be read.
    Body(Result<Vec<u8>, String>),
    /// The key of the attachment, if it is known.
    Entry(Option<MediaEntry>),
    /// The encrypted content, or why there is none.
    Encrypted(Result<Json, Failure>),
    /// The status and the bytes of a download, or why there is none.
    Downloaded(Result<(u16, Vec<u8>), Failure>),
    /// The status and the bytes of the reply to an upload, or why there is none.
    Uploaded(Result<(u16, Vec<u8>), Failure>),
    /// The homeserver's reply, or why there is none.
    Replied(Result<Reply, Failure>),
}

/// What is to be done next.
pub enum SendStep {
    /// Hand the client's request on as it is.
    PassThrough,
    /// Find out whether the room is encrypted.
    CheckEncryption,
    /// Read the body.
    ReadBody,
    /// Look the key of an attachment up.
    LookUp(Option<String>),
    /// Encrypt the content.
    Encrypt(Json),
    /// Download an attachment.
    Download(String),
    /// Upload an attachment in plain.
    Upload(RawUpload),
    /// Send a request to the homeserver.
    Forward(HttpRequest),
    /// Answer the client.
    Respond(Result<Response, ProxyError>),
    /// Nothing.
    Stop,
}

/// What a message says of itself.
pub struct SendView {
    pub room_id: Seq<char>,
    pub event_type: Seq<char>,
    pub txn_id: Seq<char>,
    pub path: Seq<char>,
}

/// Where the handling of a message stands.
pub enum StateView {
    Start,
    Checking,
    Reading { encrypted: bool },
    LookingUp { encrypted: bool, content: JsonView },
    Encrypting,
    Downloading { content: JsonView, entry: EntryView },
    Uploading { content: JsonView },
    Forwarding,
    Done,
}

/// What has come in.
pub enum EventView {
    Begin,
    Checked(Result<bool, Seq<Seq<char>>>),
    Body(Result<Seq<u8>, Seq<char>>),
    Entry(Option<EntryView>),
    Encrypted(Result<JsonView, Seq<Seq<char>>>),
    Downloaded(Result<(u16, Seq<u8>), Seq<Seq<char>>>),
    Uploaded(Result<(u16, Seq<u8>), Seq<Seq<char>>>),
    Replied(Result<(u16, JsonView), Seq<Seq<char>>>),
}

/// What an upload holds.
pub struct UploadView {
    pub path: Seq<char>,
    pub content_type: Seq<char>,
    pub body: Seq<u8>,
    pub filename: Option<Seq<char>>,
}

/// What is to be done next.
pub enum StepView {
    PassThrough,
    CheckEncryption,
    ReadBody,
    LookUp(Option<Seq<char>>),
    Encrypt(JsonView),
    Download(Seq<char>),
    Upload(UploadView),
    Forward(RequestView),
    Respond(Result<ResponseView, ProxyErrorView>),
    Stop,
}

impl SendRequest {
    pub open spec fn view(&self) -> SendView {
        SendView {
            room_id: self.room_id@,
            event_type: self.event_type@,
            txn_id: self.txn_id@,
            path: self.path@,
        }
    }
}

impl SendState {
    pub open spec fn view(&self) -> StateView {
        match self {
            SendState::Start => StateView::Start,
            SendState::Checking => StateView::Checking,
            SendState::Reading { encrypted } => StateView::Reading { encrypted: *encrypted },
            SendState::LookingUp { encrypted, content } => StateView::LookingUp {
                encrypted: *encrypted,
                content: content@,
            },
            SendState::Encrypting => StateView::Encrypting,
            SendState::Downloading { content, entry } => StateView::Downloading {
                content: content@,
                entry: entry@,
            },
            SendState::Uploading { content } => StateView::Uploading { content: content@ },
            SendState::Forwarding => StateView::Forwarding,
            SendState::Done => StateView::Done,
        }
    }
}

/// The view of what came over the wire.
pub open spec fn transfer(r: Result<(u16, Vec<u8>), Failure>) -> Result<
    (u16, Seq<u8>),
    Seq<Seq<char>>,
> {
    match r {
        Ok((status, bytes)) => Ok((status, bytes@)),
        Err(f) => Err(f@),
    }
}

impl SendEvent {
    pub open spec fn view(&self) -> EventView {
        match self {
            SendEvent::Begin => EventView::Begin,
            SendEvent::Checked(r) => EventView::Checked(
                match r {
                    Ok(b) => Ok(*b),
                    Err(f) => Err(f@),
                },
            ),
            SendEvent::Body(r) => EventView::Body(
                match r {
                    Ok(b) => Ok(b@),
                    Err(e) => Err(e@),
                },
            ),
            SendEvent::Entry(e) => EventView::Entry(media::opt_entry(*e)),
            SendEvent::Encrypted(r) => EventView::Encrypted(machine::json_result(*r)),
            SendEvent::Downloaded(r) => EventView::Downloaded(transfer(*r)),
            SendEvent::Uploaded(r) => EventView::Uploaded(transfer(*r)),
            SendEvent::Replied(r) => EventView::Replied(
                match r {
                    Ok(reply) => Ok((reply.status, reply.body@)),
                    Err(f) => Err(f@),
                },
            ),
        }
    }
}

/// What an upload holds.
pub open spec fn upload_view(u: RawUpload) -> UploadView {
    UploadView {
        path: u.path@,
        content_type: u.content_type@,
        body: u.body@,
        filename: text::opt_text(u.filename),
    }
}

impl SendStep {
    pub open spec fn view(&self) -> StepView {
        match self {
            SendStep::PassThrough => StepView::PassThrough,
            SendStep::CheckEncryption => StepView::CheckEncryption,
            SendStep::ReadBody => StepView::ReadBody,
            SendStep::LookUp(mxc) => StepView::LookUp(text::opt_text(*mxc)),
            SendStep::Encrypt(content) => StepView::Encrypt(content@),
            SendStep::Download(path) => StepView::Download(path@),
            SendStep::Upload(u) => StepView::Upload(upload_view(*u)),
            SendStep::Forward(r) => StepView::Forward(r@),
            SendStep::Respond(r) => StepView::Respond(intercept::outcome(*r)),
            SendStep::Stop => StepView::Stop,
        }
    }
}

/// The end, with an internal error.
pub open spec fn fails(context: Seq<char>, f: Seq<Seq<char>>) -> (StateView, StepView) {
    (StateView::Done, StepView::Respond(Err(ProxyErrorView::Internal(seq![context] + f))))
}

/// The end, with a complaint about the client's request.
pub open spec fn refuses(message: Seq<char>) -> (StateView, StepView) {
    (StateView::Done, StepView::Respond(Err(ProxyErrorView::BadRequest(message))))
}

/// A request that sends a content in plain, along the client's own path.
pub open spec fn forwards_plain(req: SendView, content: JsonView) -> (StateView, StepView) {
    (StateView::Forwarding, StepView::Forward(wire::body_request("PUT"@, req.path, content)))
}

/// The path that an encrypted event is sent to. The client's transaction is kept, so
/// that it recognizes its own message.
pub open spec fn encrypted_path(room_id: Seq<char>, txn_id: Seq<char>) -> Seq<char> {
    "/_matrix/client/v3/rooms/"@ + crate::percent::encoded_text(room_id)
        + "/send/m.room.encrypted/"@ + crate::percent::encoded_text(txn_id)
}

/// How a message for an unencrypted room goes on once the key of its attachment is
/// known or not: an attachment that was encrypted is downloaded first.
pub open spec fn plain_next(
    req: SendView,
    content: JsonView,
    entry: Option<EntryView>,
) -> (StateView, StepView) {
    match (content.get_text("url"@), entry) {
        (Some(mxc), Some(entry)) => match media::mxc_parts(mxc) {
            Some((server, media_id)) => (
                StateView::Downloading { content, entry },
                StepView::Download(media::download_url(server, media_id)),
            ),
            None => fails(
                "media fix-up for unencrypted room failed"@,
                seq!["malformed mxc URI"@],
            ),
        },
        _ => forwards_plain(req, content),
    }
}

/// How it goes on with a downloaded attachment.
pub open spec fn downloaded_next(
    content: JsonView,
    entry: EntryView,
    status: u16,
    a: media::AttachmentView,
) -> (StateView, StepView) {
    match media::plain_upload(status, a) {
        Ok(data) => (
            StateView::Uploading { content },
            StepView::Upload(
                UploadView {
                    path: "/_matrix/media/v3/upload"@,
                    content_type: match entry.mimetype {
                        Some(m) => m,
                        None => "application/octet-stream"@,
                    },
                    body: data,
                    filename: entry.filename,
                },
            ),
        ),
        Err(f) => fails("media fix-up for unencrypted room failed"@, f),
    }
}

/// The next state of a message, and what is to be done.
pub open spec fn send_next(req: SendView, state: StateView, event: EventView) -> (
    StateView,
    StepView,
) {
    match (state, event) {
        (StateView::Start, EventView::Begin) => if !ids::room_id(req.room_id) || req.event_type
            == "m.room.encrypted"@ {
            (StateView::Done, StepView::PassThrough)
        } else {
            (StateView::Checking, StepView::CheckEncryption)
        },
        (StateView::Checking, EventView::Checked(Ok(encrypted))) => (
            StateView::Reading { encrypted },
            StepView::ReadBody,
        ),
        (StateView::Checking, EventView::Checked(Err(f))) => fails(
            "could not determine room encryption state"@,
            f,
        ),
        (StateView::Reading { encrypted }, EventView::Body(Ok(bytes))) => match json_text::parsed(
            bytes,
        ) {
            Ok(content) => (
                StateView::LookingUp { encrypted, content },
                StepView::LookUp(content.get_text("url"@)),
            ),
            Err(e) => refuses("send body is not JSON: "@ + e),
        },
        (StateView::Reading { .. }, EventView::Body(Err(e))) => refuses(
            "failed to read send body: "@ + e,
        ),
        (StateView::LookingUp { encrypted: true, content }, EventView::Entry(entry)) => (
            StateView::Encrypting,
            StepView::Encrypt(media::for_encrypted_room(content, entry)),
        ),
        (StateView::LookingUp { encrypted: false, content }, EventView::Entry(entry)) => plain_next(
            req,
            content,
            entry,
        ),
        (StateView::Encrypting, EventView::Encrypted(Ok(content))) => (
            StateView::Forwarding,
            StepView::Forward(
                wire::body_request("PUT"@, encrypted_path(req.room_id, req.txn_id), content),
            ),
        ),
        (StateView::Encrypting, EventView::Encrypted(Err(f))) => fails(
            "failed to encrypt event"@,
            f,
        ),
        (
            StateView::Downloading { content, entry },
            EventView::Downloaded(Ok((status, bytes))),
        ) => downloaded_next(content, entry, status, media::attachment(bytes, entry.info)),
        (StateView::Downloading { .. }, EventView::Downloaded(Err(f))) => fails(
            "media fix-up for unencrypted room failed"@,
            f,
        ),
        (
            StateView::Uploading { content },
            EventView::Uploaded(Ok((status, bytes))),
        ) => match media::reuploaded_uri(status, bytes) {
            Ok(mxc) => forwards_plain(req, content.with("url"@, JsonView::Str(mxc))),
            Err(f) => fails("media fix-up for unencrypted room failed"@, f),
        },
        (StateView::Uploading { .. }, EventView::Uploaded(Err(f))) => fails(
            "media fix-up for unencrypted room failed"@,
            f,
        ),
        (StateView::Forwarding, EventView::Replied(Ok((status, body)))) => (
            StateView::Done,
            StepView::Respond(
                intercept::raw(
                    status,
                    Some(wire::json_type()),
                    encode_utf8(json_text::json_text(body)),
                ),
            ),
        ),
        (StateView::Forwarding, EventView::Replied(Err(f))) => fails("failed to forward send"@, f),
        _ => (StateView::Done, StepView::Stop),
    }
}

fn fail(context: &str, f: Failure) -> (r: (SendState, SendStep))
    ensures
        (r.0@, r.1@) == fails(context@, f@),
{
    (SendState::Done, SendStep::Respond(Err(ProxyError::Internal(f.context(context)))))
}

fn refuse(message: String) -> (r: (SendState, SendStep))
    ensures
        (r.0@, r.1@) == refuses(message@),
{
    (SendState::Done, SendStep::Respond(Err(ProxyError::BadRequest(message))))
}

fn forward_plain(req: &SendRequest, content: Json) -> (r: (SendState, SendStep))
    ensures
        (r.0@, r.1@) == forwards_plain(req@, content@),
{
    (
        SendState::Forwarding,
        SendStep::Forward(HttpRequest::with_body("PUT", req.path.clone(), content)),
    )
}

fn plain_step(req: &SendRequest, content: Json, entry: Option<MediaEntry>) -> (r: (
    SendState,
    SendStep,
))
    ensures
        (r.0@, r.1@) == plain_next(req@, content@, media::opt_entry(entry)),
{
    let entry = match entry {
        Some(entry) => entry,
        None => {
            return forward_plain(req, content);
        },
    };
    match reupload_plaintext_if_needed(&content, Some(&entry)) {
        Ok(Reupload::Nothing) => forward_plain(req, content),
        Ok(Reupload::Download(path)) => (
            SendState::Downloading { content, entry },
            SendStep::Download(path),
        ),
        Err(f) => fail("media fix-up for unencrypted room failed", f),
    }
}

/// Handles a message that the client sends to a room, one step at a time. In an encrypted
/// room its content is encrypted; in an unencrypted one it goes out as it is, but for
/// attachments, which were encrypted when they were uploaded. Where it is not known
/// whether the room is encrypted, nothing goes out.
pub fn handle_send(req: &SendRequest, state: SendState, event: SendEvent) -> (r: (
    SendState,
    SendStep,
))
    ensures
        (r.0@, r.1@) == send_next(req@, state@, event@),
{
    match (state, event) {
        (SendState::Start, SendEvent::Begin) => if !is_room_id(req.room_id.as_str()) || same_text(
            req.event_type.as_str(),
            "m.room.encrypted",
        ) {
            (SendState::Done, SendStep::PassThrough)
        } else {
            (SendState::Checking, SendStep::CheckEncryption)
        },
        (SendState::Checking, SendEvent::Checked(Ok(encrypted))) => (
            SendState::Reading { encrypted },
            SendStep::ReadBody,
        ),
        (SendState::Checking, SendEvent::Checked(Err(f))) => fail(
            "could not determine room encryption state",
            f,
        ),
        (SendState::Reading { encrypted }, SendEvent::Body(Ok(bytes))) => match parse_json(
            bytes.as_slice(),
        ) {
            Ok(content) => {
                let mxc = attachment_uri(&content);
                (SendState::LookingUp { encrypted, content }, SendStep::LookUp(mxc))
            },
            Err(e) => refuse("send body is not JSON: ".to_owned().concat(e.as_str())),
        },
        (SendState::Reading { .. }, SendEvent::Body(Err(e))) => refuse(
            "failed to read send body: ".to_owned().concat(e.as_str()),
        ),
        (SendState::LookingUp { encrypted, content }, SendEvent::Entry(entry)) => if encrypted {
            let mut content = content;
            rewrite_content_for_encrypted_room(&mut content, entry.as_ref());
            (SendState::Encrypting, SendStep::Encrypt(content))
        } else {
            plain_step(req, content, entry)
        },
        (SendState::Encrypting, SendEvent::Encrypted(Ok(content))) => (
            SendState::Forwarding,
            SendStep::Forward(
                HttpRequest::with_body(
                    "PUT",
                    encrypted_send_path(req.room_id.as_str(), req.txn_id.as_str()),
                    content,
                ),
            ),
        ),
        (SendState::Encrypting, SendEvent::Encrypted(Err(f))) => fail("failed to encrypt event", f),
        (SendState::Downloading { content, entry }, SendEvent::Downloaded(Ok((status, bytes)))) => {
            match reupload_downloaded(&entry, status, bytes.as_slice()) {
                Ok(upload) => (SendState::Uploading { content }, SendStep::Upload(upload)),
                Err(f) => fail("media fix-up for unencrypted room failed", f),
            }
        },
        (SendState::Downloading { .. }, SendEvent::Downloaded(Err(f))) => fail(
            "media fix-up for unencrypted room failed",
            f,
        ),
        (SendState::Uploading { content }, SendEvent::Uploaded(Ok((status, bytes)))) => {
            let mut content = content;
            match reuploaded(&mut content, status, bytes.as_slice()) {
                Ok(_) => forward_plain(req, content),
                Err(f) => fail("media fix-up for unencrypted room failed", f),
            }
        },
        (SendState::Uploading { .. }, SendEvent::Uploaded(Err(f))) => fail(
            "media fix-up for unencrypted room failed",
            f,
        ),
        (SendState::Forwarding, SendEvent::Replied(Ok(reply))) => (
            SendState::Done,
            SendStep::Respond(
                raw_response(reply.status, Some(json_content_type()), write_bytes(&reply.body)),
            ),
        ),
        (SendState::Forwarding, SendEvent::Replied(Err(f))) => fail("failed to forward send", f),
        _ => (SendState::Done, SendStep::Stop),
    }
}

fn encrypted_send_path(room_id: &str, txn_id: &str) -> (r: String)
    ensures
        r@ == encrypted_path(room_id@, txn_id@),
{
    "/_matrix/client/v3/rooms/".to_owned().concat(crate::percent::enc(room_id).as_str()).concat(
        "/send/m.room.encrypted/",
    ).concat(crate::percent::enc(txn_id).as_str())
}

/// The state of a message behind some events.
pub open spec fn state_after(req: SendView, events: Seq<EventView>) -> StateView
    decreases events.len(),
{
    if events.len() == 0 {
        StateView::Start
    } else {
        send_next(req, state_after(req, events.drop_last()), events.last()).0
    }
}

/// What is done on the event at place `i`.
pub open spec fn step_on(req: SendView, events: Seq<EventView>, i: int) -> StepView {
    send_next(req, state_after(req, events.take(i)), events[i]).1
}

/// Whether the room was found to be unencrypted among the first `n` events.
pub open spec fn found_unencrypted(events: Seq<EventView>, n: int) -> bool {
    exists|j: int| 0 <= j < n && #[trigger] events[j] == EventView::Checked(Ok(false))
}

proof fn lemma_plain_state(req: SendView, events: Seq<EventView>)
    ensures
        match state_after(req, events) {
            StateView::Reading { encrypted } => !encrypted ==> found_unencrypted(
                events,
                events.len() as int,
            ),
            StateView::LookingUp { encrypted, .. } => !encrypted ==> found_unencrypted(
                events,
                events.len() as int,
            ),
            StateView::Downloading { .. } | StateView::Uploading { .. } => found_unencrypted(
                events,
                events.len() as int,
            ),
            _ => true,
        },
    decreases events.len(),
{
    if events.len() > 0 {
        let front = events.drop_last();
        let n = front.len() as int;
        lemma_plain_state(req, front);
        if found_unencrypted(front, n) {
            let j = choose|j: int| 0 <= j < n && #[trigger] front[j] == EventView::Checked(
                Ok(false),
            );
            assert(events[j] == EventView::Checked(Ok(false)));
            assert(found_unencrypted(events, n + 1));
        }
        if events.last() == EventView::Checked(Ok(false)) {
            assert(events[n] == EventView::Checked(Ok(false)));
            assert(found_unencrypted(events, n + 1));
        }
    }
}

/// The proxy fails closed. In every run, whatever is sent to the homeserver for a message
/// is the encrypted content, sent as an encrypted event, unless the room was found to be
/// unencrypted before; and an attachment is uploaded in plain only then. The client's
/// request is handed on as it is only where it names no room or is encrypted already.
pub proof fn send_fails_closed(req: SendView, events: Seq<EventView>, i: int)
    requires
        0 <= i < events.len(),
    ensures
        step_on(req, events, i) matches StepView::Forward(r) ==> found_unencrypted(events, i) || (
        events[i] matches EventView::Encrypted(Ok(content)) && r == wire::body_request(
            "PUT"@,
            encrypted_path(req.room_id, req.txn_id),
            content,
        )),
        step_on(req, events, i) is Upload ==> found_unencrypted(events, i),
        step_on(req, events, i) is PassThrough ==> !ids::room_id(req.room_id) || req.event_type
            == "m.room.encrypted"@,
{
    let before = events.take(i);
    lemma_plain_state(req, before);
    if found_unencrypted(before, i) {
        let j = choose|j: int| 0 <= j < i && #[trigger] before[j] == EventView::Checked(Ok(false));
        assert(events[j] == EventView::Checked(Ok(false)));
        assert(found_unencrypted(events, i));
    }
}

/// Where it cannot be found out whether the room is encrypted, the client gets an error,
/// and the message goes nowhere.
pub proof fn unknown_room_is_refused(req: SendView, f: Seq<Seq<char>>, later: EventView)
    ensures
        send_next(req, StateView::Checking, EventView::Checked(Err(f))).1 == StepView::Respond(
            Err(
                ProxyErrorView::Internal(seq!["could not determine room encryption state"@] + f),
            ),
        ),
        send_next(
            req,
            send_next(req, StateView::Checking, EventView::Checked(Err(f))).0,
            later,
        ).1 is Stop,
{
}

/// An event that is encrypted already is never encrypted again.
pub proof fn no_double_encryption(req: SendView, events: Seq<EventView>, i: int)
    requires
        0 <= i < events.len(),
        req.event_type == "m.room.encrypted"@,
    ensures
        !(step_on(req, events, i) is Encrypt),
        !(step_on(req, events, i) is Forward),
{
    lemma_encrypted_type(req, events.take(i));
}

proof fn lemma_encrypted_type(req: SendView, events: Seq<EventView>)
    requires
        req.event_type == "m.room.encrypted"@,
    ensures
        state_after(req, events) is Start || state_after(req, events) is Done,
    decreases events.len(),
{
    if events.len() > 0 {
        lemma_encrypted_type(req, events.drop_last());
    }
}

/// A message without an attachment reaches an unencrypted room with the content and along
/// the path that the client gave.
pub proof fn plain_message_is_untouched(req: SendView, content: JsonView, entry: Option<EntryView>)
    requires
        content.get_text("url"@) is None || entry is None,
    ensures
        send_next(
            req,
            StateView::LookingUp { encrypted: false, content },
            EventView::Entry(entry),
        ).1 == StepView::Forward(wire::body_request("PUT"@, req.path, content)),
{
}

/// An attachment, which was encrypted when it was uploaded, reaches an unencrypted room in
/// plain: it is downloaded from where its URI says, uploaded again as it was before it was
/// encrypted, with its type and name, and the message points to that upload.
pub proof fn attachment_is_sent_in_plain(
    req: SendView,
    content: JsonView,
    entry: EntryView,
    server: Seq<char>,
    media_id: Seq<char>,
    encrypted: Seq<u8>,
    data: Seq<u8>,
    status: u16,
    reply: (u16, Seq<u8>),
    uploaded: Seq<char>,
)
    requires
        !server.contains('/'),
        content.get_text("url"@) == Some(media::mxc_uri(server, media_id)),
        media::attachment(encrypted, entry.info) == media::AttachmentView::Plain(data),
        wire::success(status),
        media::reuploaded_uri(reply.0, reply.1) == Ok::<Seq<char>, Seq<Seq<char>>>(uploaded),
    ensures
        ({
            let looked_up = send_next(
                req,
                StateView::LookingUp { encrypted: false, content },
                EventView::Entry(Some(entry)),
            );
            let downloaded = send_next(
                req,
                looked_up.0,
                EventView::Downloaded(Ok((status, encrypted))),
            );
            let again = send_next(req, downloaded.0, EventView::Uploaded(Ok(reply)));
            &&& looked_up.1 == StepView::Download(media::download_url(server, media_id))
            &&& downloaded.1 matches StepView::Upload(u)
            &&& u.body == data
            &&& u.filename == entry.filename
            &&& entry.mimetype is Some ==> u.content_type == entry.mimetype->0
            &&& again.1 == StepView::Forward(
                wire::body_request(
                    "PUT"@,
                    req.path,
                    content.with("url"@, JsonView::Str(uploaded)),
                ),
            )
        }),
{
    media::uri_names_attachment(server, media_id);
}

/// With which devices a room key is shared.
#[derive(PartialEq, Eq, Structural, Clone, Copy)]
pub enum SharingStrategy {
    /// With all devices of all members.
    AllDevices,
    /// With all devices, unless a verified user has one that is not signed.
    ErrorOnVerifiedUserProblem,
    /// With devices that their owners have signed.
    IdentityBasedStrategy,
    /// With devices that are trusted.
    OnlyTrustedDevices,
}

/// How room keys are made and shared.
pub struct EncryptionSettings {
    pub algorithm: String,
    pub history_visibility: String,
    /// How long a session is used, in milliseconds.
    pub rotation_period: u64,
    /// For how many messages a session is used.
    pub rotation_period_msgs: u64,
    pub sharing_strategy: SharingStrategy,
}

/// How room keys are made and shared.
pub struct EncryptionSettingsView {
    pub algorithm: Seq<char>,
    pub history_visibility: Seq<char>,
    pub rotation_period: u64,
    pub rotation_period_msgs: u64,
    pub sharing_strategy: SharingStrategy,
}

impl EncryptionSettings {
    pub open spec fn view(&self) -> EncryptionSettingsView {
        EncryptionSettingsView {
            algorithm: self.algorithm@,
            history_visibility: self.history_visibility@,
            rotation_period: self.rotation_period,
            rotation_period_msgs: self.rotation_period_msgs,
            sharing_strategy: self.sharing_strategy,
        }
    }
}

/// `matrix_sdk_crypto::store::types::RoomSettings::default`: the algorithm is Megolm.
#[verifier::external_body]
fn default_algorithm() -> (r: String)
    ensures
        r@ == "m.megolm.v1.aes-sha2"@,
{
    matrix_sdk_crypto::store::types::RoomSettings::default().algorithm.to_string()
}

/// `matrix_sdk_crypto::EncryptionSettings::default`: a session is used for a week, in
/// milliseconds, and for a hundred messages, and is shared with all devices.
#[verifier::external_body]
fn default_settings() -> (r: (u128, u64, SharingStrategy))
    ensures
        r == (604_800_000u128, 100u64, SharingStrategy::AllDevices),
{
    let settings = matrix_sdk_crypto::EncryptionSettings::default();
    let strategy = match settings.sharing_strategy {
        matrix_sdk_crypto::CollectStrategy::AllDevices => SharingStrategy::AllDevices,
        matrix_sdk_crypto::CollectStrategy::ErrorOnVerifiedUserProblem => {
            SharingStrategy::ErrorOnVerifiedUserProblem
        }
        matrix_sdk_crypto::CollectStrategy::IdentityBasedStrategy => {
            SharingStrategy::IdentityBasedStrategy
        }
        matrix_sdk_crypto::CollectStrategy::OnlyTrustedDevices => {
            SharingStrategy::OnlyTrustedDevices
        }
    };
    (settings.rotation_period.as_millis(), settings.rotation_period_msgs, strategy)
}

/// The view of the stored settings of a room.
pub open spec fn opt_settings(room: Option<RoomSettings>) -> Option<rooms::SettingsView> {
    match room {
        Some(s) => Some(s@),
        None => None,
    }
}

/// The settings with which room keys are made and shared, by the stored settings of the
/// room and the visibility of its history. Room keys go to all devices.
pub open spec fn settings_for(
    room: Option<rooms::SettingsView>,
    history_visibility: Seq<char>,
) -> EncryptionSettingsView {
    EncryptionSettingsView {
        algorithm: match room {
            Some(s) => s.algorithm,
            None => "m.megolm.v1.aes-sha2"@,
        },
        history_visibility,
        rotation_period: match room {
            Some(rooms::SettingsView { session_rotation_period: Some(p), .. }) => p,
            _ => 604_800_000,
        },
        rotation_period_msgs: match room {
            Some(rooms::SettingsView { session_rotation_period_messages: Some(n), .. }) => n as u64,
            _ => 100,
        },
        sharing_strategy: SharingStrategy::AllDevices,
    }
}

/// The settings with which room keys are made and shared: those of the room, or else
/// the usual ones.
pub fn encryption_settings(room: Option<RoomSettings>, history_visibility: String) -> (r:
    EncryptionSettings)
    ensures
        r@ == settings_for(opt_settings(room), history_visibility@),
{
    let (period, messages, sharing_strategy) = default_settings();
    match room {
        Some(s) => EncryptionSettings {
            algorithm: s.algorithm,
            history_visibility,
            rotation_period: match s.session_rotation_period {
                Some(p) => p,
                None => period as u64,
            },
            rotation_period_msgs: match s.session_rotation_period_messages {
                Some(n) => n as u64,
                None => messages,
            },
            sharing_strategy,
        },
        None => EncryptionSettings {
            algorithm: default_algorithm(),
            history_visibility,
            rotation_period: period as u64,
            rotation_period_msgs: messages,
            sharing_strategy,
        },
    }
}

/// An event to encrypt for a room.
pub struct EncryptRequest {
    pub room_id: String,
    pub event_type: String,
    pub content: Json,
}

/// An event to encrypt for a room.
pub struct EncryptRequestView {
    pub room_id: Seq<char>,
    pub event_type: Seq<char>,
    pub content: JsonView,
}

impl EncryptRequest {
    pub open spec fn view(&self) -> EncryptRequestView {
        EncryptRequestView {
            room_id: self.room_id@,
            event_type: self.event_type@,
            content: self.content@,
        }
    }
}

/// Where the encryption of an event stands.
pub enum EncryptState {
    Start,
    /// It waits for the members of the room.
    Members,
    /// It waits for the members to be tracked.
    Tracking { members: Vec<String> },
    /// It waits for pending requests, such as queries for new members, to be sent.
    Pumping { members: Vec<String> },
    /// It waits to hear of devices without a session.
    Missing { members: Vec<String> },
    /// It waits for one-time keys for new sessions.
    Claiming { members: Vec<String> },
    /// It waits for the settings of the room.
    Settings { members: Vec<String> },
    /// It waits for the room key to be encrypted for all devices.
    Sharing,
    /// It waits for a share of the room key to be sent: the next one of so many.
    SendingShare { shares: usize, next: usize },
    /// It waits for the content to be encrypted.
    Encrypting,
    /// It has come to an end.
    Done,
}

/// What has come in.
pub enum EncryptEvent {
    Begin,
    /// The members of the room.
    Members(Vec<String>),
    /// What was to be done is through.
    Through,
    /// There are devices without a session, or there are none.
    Missing(bool),
    /// The stored settings of the room, if any, and who can read its history.
    Settings(Option<RoomSettings>, String),
    /// There are so many shares to send.
    Shares(usize),
    /// The text of the encrypted content.
    Encrypted(String),
    /// What was to be done failed.
    Failed(Failure),
}

/// What is to be done next.
pub enum EncryptStep {
    /// Look up all members of the room.
    LookUpMembers { room_id: String },
    /// Track these users.
    Track { members: Vec<String> },
    /// Send what is pending.
    Pump,
    /// Look for devices of these users without a session.
    FindMissing { members: Vec<String> },
    /// Claim one-time keys for the devices that were found.
    Claim,
    /// Look up the settings of the room.
    LookUpSettings { room_id: String },
    /// Encrypt the room key for the devices of these users.
    Share { room_id: String, members: Vec<String>, settings: EncryptionSettings },
    /// Send the share at this place.
    SendShare(usize),
    /// Encrypt the content.
    Encrypt { room_id: String, event_type: String, content: Json },
    /// Finish, with the encrypted content or with why there is none.
    Finish(Result<Json, Failure>),
    /// Nothing.
    Stop,
}

/// Where the encryption of an event stands.
pub enum EncryptStateView {
    Start,
    Members,
    Tracking { members: Seq<Seq<char>> },
    Pumping { members: Seq<Seq<char>> },
    Missing { members: Seq<Seq<char>> },
    Claiming { members: Seq<Seq<char>> },
    Settings { members: Seq<Seq<char>> },
    Sharing,
    SendingShare { shares: usize, next: usize },
    Encrypting,
    Done,
}

/// What has come in.
pub enum EncryptEventView {
    Begin,
    Members(Seq<Seq<char>>),
    Through,
    Missing(bool),
    Settings(Option<rooms::SettingsView>, Seq<char>),
    Shares(usize),
    Encrypted(Seq<char>),
    Failed(Seq<Seq<char>>),
}

/// What is to be done next.
pub enum EncryptStepView {
    LookUpMembers { room_id: Seq<char> },
    Track { members: Seq<Seq<char>> },
    Pump,
    FindMissing { members: Seq<Seq<char>> },
    Claim,
    LookUpSettings { room_id: Seq<char> },
    Share { room_id: Seq<char>, members: Seq<Seq<char>>, settings: EncryptionSettingsView },
    SendShare(usize),
    Encrypt { room_id: Seq<char>, event_type: Seq<char>, content: JsonView },
    Finish(Result<JsonView, Seq<Seq<char>>>),
    Stop,
}

impl EncryptState {
    pub open spec fn view(&self) -> EncryptStateView {
        match self {
            EncryptState::Start => EncryptStateView::Start,
            EncryptState::Members => EncryptStateView::Members,
            EncryptState::Tracking { members } => EncryptStateView::Tracking {
                members: text::texts(members@),
            },
            EncryptState::Pumping { members } => EncryptStateView::Pumping {
                members: text::texts(members@),
            },
            EncryptState::Missing { members } => EncryptStateView::Missing {
                members: text::texts(members@),
            },
            EncryptState::Claiming { members } => EncryptStateView::Claiming {
                members: text::texts(members@),
            },
            EncryptState::Settings { members } => EncryptStateView::Settings {
                members: text::texts(members@),
            },
            EncryptState::Sharing => EncryptStateView::Sharing,
            EncryptState::SendingShare { shares, next } => EncryptStateView::SendingShare {
                shares: *shares,
                next: *next,
            },
            EncryptState::Encrypting => EncryptStateView::Encrypting,
            EncryptState::Done => EncryptStateView::Done,
        }
    }
}

impl EncryptEvent {
    pub open spec fn view(&self) -> EncryptEventView {
        match self {
            EncryptEvent::Begin => EncryptEventView::Begin,
            EncryptEvent::Members(members) => EncryptEventView::Members(text::texts(members@)),
            EncryptEvent::Through => EncryptEventView::Through,
            EncryptEvent::Missing(some) => EncryptEventView::Missing(*some),
            EncryptEvent::Settings(stored, visibility) => EncryptEventView::Settings(
                opt_settings(*stored),
                visibility@,
            ),
            EncryptEvent::Shares(n) => EncryptEventView::Shares(*n),
            EncryptEvent::Encrypted(s) => EncryptEventView::Encrypted(s@),
            EncryptEvent::Failed(f) => EncryptEventView::Failed(f@),
        }
    }
}

impl EncryptStep {
    pub open spec fn view(&self) -> EncryptStepView {
        match self {
            EncryptStep::LookUpMembers { room_id } => EncryptStepView::LookUpMembers {
                room_id: room_id@,
            },
            EncryptStep::Track { members } => EncryptStepView::Track {
                members: text::texts(members@),
            },
            EncryptStep::Pump => EncryptStepView::Pump,
            EncryptStep::FindMissing { members } => EncryptStepView::FindMissing {
                members: text::texts(members@),
            },
            EncryptStep::Claim => EncryptStepView::Claim,
            EncryptStep::LookUpSettings { room_id } => EncryptStepView::LookUpSettings {
                room_id: room_id@,
            },
            EncryptStep::Share { room_id, members, settings } => EncryptStepView::Share {
                room_id: room_id@,
                members: text::texts(members@),
                settings: settings@,
            },
            EncryptStep::SendShare(i) => EncryptStepView::SendShare(*i),
            EncryptStep::Encrypt { room_id, event_type, content } => EncryptStepView::Encrypt {
                room_id: room_id@,
                event_type: event_type@,
                content: content@,
            },
            EncryptStep::Finish(r) => EncryptStepView::Finish(machine::json_result(*r)),
            EncryptStep::Stop => EncryptStepView::Stop,
        }
    }
}

/// What is said of a failure. The lookup of members and of settings says it itself.
pub open spec fn failure_context(state: EncryptStateView) -> Option<Seq<char>> {
    match state {
        EncryptStateView::Tracking { .. } => Some("update_tracked_users failed"@),
        EncryptStateView::Missing { .. } => Some("get_missing_sessions failed"@),
        EncryptStateView::Claiming { .. } => Some("keys/claim for missing sessions failed"@),
        EncryptStateView::Sharing => Some("share_room_key failed"@),
        EncryptStateView::SendingShare { .. } => Some("sending room key share failed"@),
        EncryptStateView::Encrypting => Some("encrypt_room_event_raw failed"@),
        _ => None,
    }
}

/// The failure that the encryption ends in.
pub open spec fn explained_failure(state: EncryptStateView, f: Seq<Seq<char>>) -> Seq<Seq<char>> {
    match failure_context(state) {
        Some(context) => seq![context] + f,
        None => f,
    }
}

/// The encryption of the content.
pub open spec fn encrypts(req: EncryptRequestView) -> (EncryptStateView, EncryptStepView) {
    (
        EncryptStateView::Encrypting,
        EncryptStepView::Encrypt {
            room_id: req.room_id,
            event_type: req.event_type,
            content: req.content,
        },
    )
}

/// The lookup of the room's settings.
pub open spec fn asks_settings(req: EncryptRequestView, members: Seq<Seq<char>>) -> (
    EncryptStateView,
    EncryptStepView,
) {
    (
        EncryptStateView::Settings { members },
        EncryptStepView::LookUpSettings { room_id: req.room_id },
    )
}

/// The encrypted content in a text.
pub open spec fn encrypted_content(s: Seq<char>) -> Result<JsonView, Seq<Seq<char>>> {
    match json_text::parsed(encode_utf8(s)) {
        Ok(content) => Ok(content),
        Err(e) => Err(seq!["encrypted content is not valid JSON"@, e]),
    }
}

/// The next state of the encryption of an event, and what is to be done.
pub open spec fn encrypt_next(
    req: EncryptRequestView,
    state: EncryptStateView,
    event: EncryptEventView,
) -> (EncryptStateView, EncryptStepView) {
    match (state, event) {
        (EncryptStateView::Start, EncryptEventView::Begin) => (
            EncryptStateView::Members,
            EncryptStepView::LookUpMembers { room_id: req.room_id },
        ),
        (EncryptStateView::Start, _) => (EncryptStateView::Done, EncryptStepView::Stop),
        (EncryptStateView::Done, _) => (EncryptStateView::Done, EncryptStepView::Stop),
        (_, EncryptEventView::Failed(f)) => (
            EncryptStateView::Done,
            EncryptStepView::Finish(Err(explained_failure(state, f))),
        ),
        (EncryptStateView::Members, EncryptEventView::Members(members)) => (
            EncryptStateView::Tracking { members },
            EncryptStepView::Track { members },
        ),
        (EncryptStateView::Tracking { members }, EncryptEventView::Through) => (
            EncryptStateView::Pumping { members },
            EncryptStepView::Pump,
        ),
        (EncryptStateView::Pumping { members }, EncryptEventView::Through) => (
            EncryptStateView::Missing { members },
            EncryptStepView::FindMissing { members },
        ),
        (EncryptStateView::Missing { members }, EncryptEventView::Missing(true)) => (
            EncryptStateView::Claiming { members },
            EncryptStepView::Claim,
        ),
        (EncryptStateView::Missing { members }, EncryptEventView::Missing(false)) => asks_settings(
            req,
            members,
        ),
        (EncryptStateView::Claiming { members }, EncryptEventView::Through) => asks_settings(
            req,
            members,
        ),
        (EncryptStateView::Settings { members }, EncryptEventView::Settings(stored, visibility)) => (
            EncryptStateView::Sharing,
            EncryptStepView::Share {
                room_id: req.room_id,
                members,
                settings: settings_for(stored, visibility),
            },
        ),
        (EncryptStateView::Sharing, EncryptEventView::Shares(n)) => if n == 0 {
            encrypts(req)
        } else {
            (EncryptStateView::SendingShare { shares: n, next: 0 }, EncryptStepView::SendShare(0))
        },
        (EncryptStateView::SendingShare { shares, next }, EncryptEventView::Through) => if next + 1
            < shares {
            (
                EncryptStateView::SendingShare { shares, next: (next + 1) as usize },
                EncryptStepView::SendShare((next + 1) as usize),
            )
        } else {
            encrypts(req)
        },
        (EncryptStateView::Encrypting, EncryptEventView::Encrypted(s)) => (
            EncryptStateView::Done,
            EncryptStepView::Finish(encrypted_content(s)),
        ),
        _ => (EncryptStateView::Done, EncryptStepView::Stop),
    }
}

fn explain(state: &EncryptState, f: Failure) -> (r: Failure)
    ensures
        r@ == explained_failure(state@, f@),
{
    match state {
        EncryptState::Tracking { .. } => f.context("update_tracked_users failed"),
        EncryptState::Missing { .. } => f.context("get_missing_sessions failed"),
        EncryptState::Claiming { .. } => f.context("keys/claim for missing sessions failed"),
        EncryptState::Sharing => f.context("share_room_key failed"),
        EncryptState::SendingShare { .. } => f.context("sending room key share failed"),
        EncryptState::Encrypting => f.context("encrypt_room_event_raw failed"),
        _ => f,
    }
}

fn encrypt_now(req: &EncryptRequest) -> (r: (EncryptState, EncryptStep))
    ensures
        (r.0@, r.1@) == encrypts(req@),
{
    (
        EncryptState::Encrypting,
        EncryptStep::Encrypt {
            room_id: req.room_id.clone(),
            event_type: req.event_type.clone(),
            content: req.content.copy(),
        },
    )
}

fn ask_settings(req: &EncryptRequest, members: Vec<String>) -> (r: (EncryptState, EncryptStep))
    ensures
        (r.0@, r.1@) == asks_settings(req@, text::texts(members@)),
{
    (
        EncryptState::Settings { members },
        EncryptStep::LookUpSettings { room_id: req.room_id.clone() },
    )
}

fn read_encrypted(s: &str) -> (r: Result<Json, Failure>)
    ensures
        machine::json_result(r) == encrypted_content(s@),
{
    match parse_json(s.as_bytes()) {
        Ok(content) => Ok(content),
        Err(e) => Err(Failure::caused("encrypted content is not valid JSON", e.as_str())),
    }
}

/// Encrypts an event, one step at a time: all members of the room are tracked, sessions
/// with their devices are set up, the room key is shared with them, and then the content
/// is encrypted.
pub fn encrypt_content(req: &EncryptRequest, state: EncryptState, event: EncryptEvent) -> (r: (
    EncryptState,
    EncryptStep,
))
    ensures
        (r.0@, r.1@) == encrypt_next(req@, state@, event@),
{
    match (state, event) {
        (EncryptState::Start, EncryptEvent::Begin) => (
            EncryptState::Members,
            EncryptStep::LookUpMembers { room_id: req.room_id.clone() },
        ),
        (EncryptState::Start, _) => (EncryptState::Done, EncryptStep::Stop),
        (EncryptState::Done, _) => (EncryptState::Done, EncryptStep::Stop),
        (state, EncryptEvent::Failed(f)) => (
            EncryptState::Done,
            EncryptStep::Finish(Err(explain(&state, f))),
        ),
        (EncryptState::Members, EncryptEvent::Members(members)) => {
            let users = copy_texts(&members);
            (EncryptState::Tracking { members }, EncryptStep::Track { members: users })
        },
        (EncryptState::Tracking { members }, EncryptEvent::Through) => (
            EncryptState::Pumping { members },
            EncryptStep::Pump,
        ),
        (EncryptState::Pumping { members }, EncryptEvent::Through) => {
            let asked = copy_texts(&members);
            (EncryptState::Missing { members }, EncryptStep::FindMissing { members: asked })
        },
        (EncryptState::Missing { members }, EncryptEvent::Missing(true)) => (
            EncryptState::Claiming { members },
            EncryptStep::Claim,
        ),
        (EncryptState::Missing { members }, EncryptEvent::Missing(false)) => ask_settings(
            req,
            members,
        ),
        (EncryptState::Claiming { members }, EncryptEvent::Through) => ask_settings(req, members),
        (EncryptState::Settings { members }, EncryptEvent::Settings(stored, visibility)) => (
            EncryptState::Sharing,
            EncryptStep::Share {
                room_id: req.room_id.clone(),
                members,
                settings: encryption_settings(stored, visibility),
            },
        ),
        (EncryptState::Sharing, EncryptEvent::Shares(n)) => if n == 0 {
            encrypt_now(req)
        } else {
            (EncryptState::SendingShare { shares: n, next: 0 }, EncryptStep::SendShare(0))
        },
        (EncryptState::SendingShare { shares, next }, EncryptEvent::Through) => if next < shares
            && next + 1 < shares {
            (
                EncryptState::SendingShare { shares, next: next + 1 },
                EncryptStep::SendShare(next + 1),
            )
        } else {
            encrypt_now(req)
        },
        (EncryptState::Encrypting, EncryptEvent::Encrypted(s)) => (
            EncryptState::Done,
            EncryptStep::Finish(read_encrypted(s.as_str())),
        ),
        _ => (EncryptState::Done, EncryptStep::Stop),
    }
}

/// The state of the encryption behind some events.
pub open spec fn encryption_after(
    req: EncryptRequestView,
    events: Seq<EncryptEventView>,
) -> EncryptStateView
    decreases events.len(),
{
    if events.len() == 0 {
        EncryptStateView::Start
    } else {
        encrypt_next(req, encryption_after(req, events.drop_last()), events.last()).0
    }
}

/// What is done on the event at place `i`.
pub open spec fn encryption_step(
    req: EncryptRequestView,
    events: Seq<EncryptEventView>,
    i: int,
) -> EncryptStepView {
    encrypt_next(req, encryption_after(req, events.take(i)), events[i]).1
}

/// Whether the members that a run looked up, all of the room's, are the given ones.
pub open spec fn looked_up(
    req: EncryptRequestView,
    events: Seq<EncryptEventView>,
    members: Seq<Seq<char>>,
) -> bool {
    &&& events.len() >= 2
    &&& encryption_step(req, events, 0) == (EncryptStepView::LookUpMembers {
        room_id: req.room_id,
    })
    &&& events[1] == EncryptEventView::Members(members)
}

/// The members that a state holds are those that were looked up.
proof fn lemma_members(req: EncryptRequestView, events: Seq<EncryptEventView>)
    ensures
        match encryption_after(req, events) {
            EncryptStateView::Start => events.len() == 0,
            EncryptStateView::Members => events.len() == 1 && events[0] == EncryptEventView::Begin,
            EncryptStateView::Tracking { members } => looked_up(req, events, members),
            EncryptStateView::Pumping { members } => looked_up(req, events, members),
            EncryptStateView::Missing { members } => looked_up(req, events, members),
            EncryptStateView::Claiming { members } => looked_up(req, events, members),
            EncryptStateView::Settings { members } => looked_up(req, events, members),
            _ => true,
        },
    decreases events.len(),
{
    if events.len() > 0 {
        let front = events.drop_last();
        lemma_members(req, front);
        assert(events.take(0) =~= Seq::empty());
        assert(front.take(0) =~= Seq::empty());
        if front.len() > 0 {
            assert(front[0] == events[0]);
        }
        if front.len() > 1 {
            assert(front[1] == events[1]);
        }
    }
}

/// The room key is shared with all members of the room, and with all their devices: in
/// every run, the members that are tracked, whose devices are looked for, and that the key
/// is encrypted for, are those that the lookup of the room's members gave; and it is shared
/// with the settings of the room.
pub proof fn shares_with_members(req: EncryptRequestView, events: Seq<EncryptEventView>, i: int)
    requires
        0 <= i < events.len(),
    ensures
        encryption_step(req, events, i) matches EncryptStepView::Track { members } ==> looked_up(
            req,
            events,
            members,
        ),
        encryption_step(req, events, i) matches EncryptStepView::FindMissing { members }
            ==> looked_up(req, events, members),
        encryption_step(req, events, i) matches EncryptStepView::Share { room_id, members, settings }
            ==> looked_up(req, events, members) && room_id == req.room_id && (
        events[i] matches EncryptEventView::Settings(stored, visibility) && settings
            == settings_for(stored, visibility)) && settings.sharing_strategy
            == SharingStrategy::AllDevices,
{
    let before = events.take(i);
    lemma_members(req, before);
    if i > 0 {
        assert(before[0] == events[0]);
        assert(before.take(0) =~= events.take(0));
    } else {
        assert(before =~= Seq::empty());
    }
    if i > 1 {
        assert(before[1] == events[1]);
    } else if i == 1 {
        assert(events.take(0) =~= Seq::empty());
    }
}

/// Sessions are set up before the key is shared: the settings, which come just before, are
/// looked up only where no session was missing, or where keys for those that were have been
/// claimed.
pub proof fn sessions_are_claimed_first(
    req: EncryptRequestView,
    events: Seq<EncryptEventView>,
    i: int,
)
    requires
        0 <= i < events.len(),
    ensures
        encryption_step(req, events, i) is Share ==> i > 0 && encryption_step(req, events, i - 1)
            is LookUpSettings,
        encryption_step(req, events, i) is LookUpSettings ==> events[i]
            == EncryptEventView::Missing(false) || (i > 0 && encryption_step(req, events, i - 1)
            == EncryptStepView::Claim && events[i] == EncryptEventView::Through),
{
    let before = events.take(i);
    if i > 0 {
        assert(before.drop_last() =~= events.take(i - 1));
        assert(before.last() == events[i - 1]);
    }
}

/// How many of the last events say that something is through.
pub open spec fn through_at_end(events: Seq<EncryptEventView>) -> nat
    decreases events.len(),
{
    if events.len() == 0 || events.last() != EncryptEventView::Through {
        0
    } else {
        1 + through_at_end(events.drop_last())
    }
}

/// A share is sent only when all shares before it are through.
proof fn lemma_shares_in_order(req: EncryptRequestView, events: Seq<EncryptEventView>)
    ensures
        match encryption_after(req, events) {
            EncryptStateView::SendingShare { shares, next } => next < shares && next
                == through_at_end(events) && events.len() > next && events[events.len() - 1 - next]
                == EncryptEventView::Shares(shares),
            _ => true,
        },
    decreases events.len(),
{
    if events.len() > 0 {
        lemma_shares_in_order(req, events.drop_last());
    }
}

/// The content is encrypted only after the room key was shared: when it comes to that,
/// there was a list of shares, and all that it names have been sent since.
pub proof fn encrypts_after_sharing(req: EncryptRequestView, events: Seq<EncryptEventView>)
    requires
        encryption_after(req, events) == EncryptStateView::Encrypting,
    ensures
        exists|j: int|
            0 <= j < events.len() && (#[trigger] events[j] matches EncryptEventView::Shares(n) && n
                == events.len() - 1 - j && through_at_end(events) == n),
{
    let front = events.drop_last();
    lemma_shares_in_order(req, front);
    match encryption_after(req, front) {
        EncryptStateView::Sharing => {
            let j = events.len() - 1;
            assert(events[j] == EncryptEventView::Shares(0));
        },
        EncryptStateView::SendingShare { shares, next } => {
            let j = front.len() - 1 - next;
            assert(front[j] == EncryptEventView::Shares(shares));
            assert(events[j] == EncryptEventView::Shares(shares));
        },
        _ => {},
    }
}

/// What comes out is the encrypted form of what was handed in: a run ends in a content only
/// where the crypto machine was asked to encrypt the request's content, as an event of its
/// type in its room, just before, and has handed that content out.
pub proof fn encrypts_what_was_given(
    req: EncryptRequestView,
    events: Seq<EncryptEventView>,
    i: int,
)
    requires
        0 <= i < events.len(),
    ensures
        encryption_step(req, events, i) matches EncryptStepView::Finish(Ok(content)) ==> i > 0
            && encryption_step(req, events, i - 1) == (EncryptStepView::Encrypt {
            room_id: req.room_id,
            event_type: req.event_type,
            content: req.content,
        }) && (events[i] matches EncryptEventView::Encrypted(s) && json_text::parsed(encode_utf8(s))
            == Ok::<JsonView, Seq<char>>(content)),
{
    let before = events.take(i);
    if i > 0 {
        assert(before.drop_last() =~= events.take(i - 1));
        assert(before.last() == events[i - 1]);
    }
}

/// A failure ends the encryption, whatever it was waiting for: nothing is encrypted then,
/// and nothing is done any more.
pub proof fn failure_ends_encryption(
    req: EncryptRequestView,
    state: EncryptStateView,
    f: Seq<Seq<char>>,
    later: EncryptEventView,
)
    ensures
        ({
            let next = encrypt_next(req, state, EncryptEventView::Failed(f));
            &&& next.1 is Stop || next.1 == EncryptStepView::Finish(
                Err(explained_failure(state, f)),
            )
            &&& encrypt_next(req, next.0, later).1 is Stop
        }),
{
}

/// The request that sends a message of the verification machine to a room: the encrypted
/// content, where there is one, as an encrypted event, and otherwise the message itself.
pub open spec fn room_message_http(r: RoomMessageRequest, encrypted: Option<JsonView>) ->
    RequestView {
    match encrypted {
        Some(content) => wire::body_request(
            "PUT"@,
            machine::send_url(r.room_id@, "m.room.encrypted"@, r.txn_id@),
            content,
        ),
        None => wire::body_request(
            "PUT"@,
            machine::send_url(r.room_id@, r.event_type@, r.txn_id@),
            r.content@,
        ),
    }
}

/// The request that sends a message of the verification machine to a room. In an encrypted
/// room the content was encrypted before.
pub fn send_room_message_request(request: &RoomMessageRequest, encrypted: Option<Json>) -> (r:
    HttpRequest)
    ensures
        r@ == room_message_http(*request, wire::body_view(encrypted)),
{
    match encrypted {
        Some(content) => HttpRequest::with_body(
            "PUT",
            send_path(request.room_id.as_str(), "m.room.encrypted", request.txn_id.as_str()),
            content,
        ),
        None => HttpRequest::with_body(
            "PUT",
            send_path(
                request.room_id.as_str(),
                request.event_type.as_str(),
                request.txn_id.as_str(),
            ),
            request.content.copy(),
        ),
    }
}

/// What comes of the reply to such a message.
pub fn room_message_sent(reply: Result<Reply, Failure>) -> (r: Result<Json, Failure>)
    ensures
        machine::json_result(r) == match machine::accepted_body(
            "in-room verification send failed: "@,
            " "@,
            reply,
        ) {
            Err(f) => Err(f),
            Ok(body) => machine::read_body(
                body,
                machine::room_message_error(machine::body_bytes(body)),
            ),
        },
{
    match accepted("in-room verification send failed: ", " ", reply) {
        Ok(body) => {
            let objection = room_message_objection(write_bytes(&body));
            readable(body, objection)
        },
        Err(f) => Err(f),
    }
}

} // verus!
