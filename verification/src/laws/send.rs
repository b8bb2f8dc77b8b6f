//! Messages: what goes out is what came in.

use crate::crypto::encrypt;
use crate::crypto::encrypt::{
    EncryptEventView, EncryptRequestView, EncryptStateView, EncryptStepView, EventView, SendView,
    SharingStrategy, StateView, StepView,
};
use crate::crypto::machine::RoomMessageRequest;
use crate::crypto::media;
use crate::crypto::media::{AttachmentView, EntryView};
use crate::crypto::rooms::SettingsView;
use crate::error::ProxyErrorView;
use crate::json::JsonView;
use crate::json_text;
use crate::laws::media as attachments;
use crate::percent;
use crate::wire::{RequestView, ResponseView};
use vstd::prelude::*;
use vstd::string::*;
use vstd::utf8::*;

verus! {

/// Whether a content came in among the first `n` events, as the body of the message.
pub open spec fn came_in(events: Seq<EventView>, n: int, content: JsonView) -> bool {
    exists|j: int|
        0 <= j < n && (#[trigger] events[j] matches EventView::Body(Ok(bytes))
            && json_text::parsed(bytes) == Ok::<JsonView, Seq<char>>(content))
}

/// Whether the key of an attachment came in among the first `n` events.
pub open spec fn key_came_in(events: Seq<EventView>, n: int, entry: EntryView) -> bool {
    exists|j: int| 0 <= j < n && #[trigger] events[j] == EventView::Entry(Some(entry))
}

/// Whether a content and the key of its attachment came in, if the state holds them.
pub open spec fn held(state: StateView, events: Seq<EventView>) -> bool {
    match state {
        StateView::LookingUp { content, .. } => came_in(events, events.len() as int, content),
        StateView::Downloading { content, entry } => came_in(
            events,
            events.len() as int,
            content,
        ) && key_came_in(events, events.len() as int, entry),
        StateView::Uploading { content } => came_in(events, events.len() as int, content)
            && exists|entry: EntryView| key_came_in(events, events.len() as int, entry),
        _ => true,
    }
}

proof fn lemma_more(events: Seq<EventView>, n: int, content: JsonView)
    requires
        events.len() > 0,
        n == events.len() - 1,
        came_in(events.drop_last(), n, content),
    ensures
        came_in(events, n + 1, content),
{
    let front = events.drop_last();
    let j = choose|j: int|
        0 <= j < n && (#[trigger] front[j] matches EventView::Body(Ok(bytes))
            && json_text::parsed(bytes) == Ok::<JsonView, Seq<char>>(content));
    assert(events[j] == front[j]);
}

proof fn lemma_more_keys(events: Seq<EventView>, n: int, entry: EntryView)
    requires
        events.len() > 0,
        n == events.len() - 1,
        key_came_in(events.drop_last(), n, entry),
    ensures
        key_came_in(events, n + 1, entry),
{
    let front = events.drop_last();
    let j = choose|j: int| 0 <= j < n && #[trigger] front[j] == EventView::Entry(Some(entry));
    assert(events[j] == front[j]);
}

proof fn lemma_held(req: SendView, events: Seq<EventView>)
    ensures
        held(encrypt::state_after(req, events), events),
    decreases events.len(),
{
    if events.len() > 0 {
        let front = events.drop_last();
        let n = front.len() as int;
        lemma_held(req, front);
        let before = encrypt::state_after(req, front);
        let last = events.last();
        assert(events[n] == last);
        match before {
            StateView::Reading { .. } => {
                match encrypt::state_after(req, events) {
                    StateView::LookingUp { content, .. } => {
                        assert(came_in(events, n + 1, content));
                    },
                    _ => {},
                }
            },
            StateView::LookingUp { content, .. } => {
                lemma_more(events, n, content);
                match last {
                    EventView::Entry(Some(entry)) => {
                        assert(key_came_in(events, n + 1, entry));
                    },
                    _ => {},
                }
            },
            StateView::Downloading { content, entry } => {
                lemma_more(events, n, content);
                lemma_more_keys(events, n, entry);
            },
            _ => {},
        }
    }
}

proof fn lemma_taken(events: Seq<EventView>, i: int)
    requires
        0 <= i < events.len(),
    ensures
        forall|content: JsonView|
            came_in(events.take(i), i, content) ==> #[trigger] came_in(events, i, content),
        forall|entry: EntryView|
            key_came_in(events.take(i), i, entry) ==> #[trigger] key_came_in(events, i, entry),
{
    let before = events.take(i);
    assert forall|content: JsonView| came_in(before, i, content) implies #[trigger] came_in(
        events,
        i,
        content,
    ) by {
        let j = choose|j: int|
            0 <= j < i && (#[trigger] before[j] matches EventView::Body(Ok(bytes))
                && json_text::parsed(bytes) == Ok::<JsonView, Seq<char>>(content));
        assert(events[j] == before[j]);
    }
    assert forall|entry: EntryView| key_came_in(before, i, entry) implies #[trigger] key_came_in(
        events,
        i,
        entry,
    ) by {
        let j = choose|j: int| 0 <= j < i && #[trigger] before[j] == EventView::Entry(Some(entry));
        assert(events[j] == before[j]);
    }
}

/// A message without an attachment of its own goes out whole. In every run in which no key
/// of an attachment came in, what is encrypted is exactly the JSON of the body that came in
/// before, every member as it was; and so is what goes to an unencrypted room, along the
/// client's own path.
pub proof fn message_goes_out_whole(req: SendView, events: Seq<EventView>, i: int)
    requires
        0 <= i < events.len(),
        forall|j: int| 0 <= j <= i ==> !(#[trigger] events[j] matches EventView::Entry(Some(_))),
    ensures
        encrypt::step_on(req, events, i) matches StepView::Encrypt(c) ==> came_in(events, i, c),
        encrypt::step_on(req, events, i) matches StepView::Forward(r) ==> r.method == "PUT"@ && (
        (events[i] matches EventView::Encrypted(Ok(c)) && r.body == Some(c)) || (r.path == req.path
            && (r.body matches Some(c) && came_in(events, i, c)))),
        !(encrypt::step_on(req, events, i) is Upload),
        !(encrypt::step_on(req, events, i) is Download),
{
    let before = events.take(i);
    lemma_held(req, before);
    lemma_taken(events, i);
    match encrypt::state_after(req, before) {
        StateView::Downloading { entry, .. } => {
            assert(key_came_in(events, i, entry));
        },
        StateView::Uploading { .. } => {
            let entry = choose|entry: EntryView| key_came_in(before, i, entry);
            assert(key_came_in(events, i, entry));
        },
        _ => {},
    }
}

/// A message with an attachment whose key came in keeps every member but those that point
/// to the attachment: in every run, what is encrypted is the content that came in, but for
/// its `url`, `file` and `info`, and what goes to an unencrypted room is the content that
/// came in, but for its `url`.
pub proof fn attachment_message_keeps_its_members(
    req: SendView,
    events: Seq<EventView>,
    i: int,
    key: Seq<char>,
)
    requires
        0 <= i < events.len(),
    ensures
        encrypt::step_on(req, events, i) matches StepView::Encrypt(c) ==> exists|content: JsonView|
            #[trigger] came_in(events, i, content) && (c == content || (content is Object && c
                is Object && (key != "url"@ && key != "file"@ && key != "info"@ ==> c.get(key)
                == content.get(key)) && (content.get2("info"@, key) matches Some(v) ==> c.get2(
                "info"@,
                key,
            ) == Some(v)))),
        encrypt::step_on(req, events, i) matches StepView::Forward(r) ==> (
        events[i] matches EventView::Encrypted(Ok(c)) && r.body == Some(c)) || (r.path == req.path
            && (r.body matches Some(c) && exists|content: JsonView| #[trigger]
            came_in(events, i, content) && (key != "url"@ ==> c.get(key) == content.get(key)) && (
            !(events[i] is Uploaded) ==> c == content))),
{
    let before = events.take(i);
    lemma_held(req, before);
    lemma_taken(events, i);
    match (encrypt::state_after(req, before), events[i]) {
        (StateView::LookingUp { encrypted, content }, EventView::Entry(entry)) => {
            assert(came_in(events, i, content));
            attachments::plain_content_is_kept(content, entry);
            match (content.get("url"@), entry) {
                (Some(JsonView::Str(mxc)), Some(e)) => {
                    attachments::encrypted_content_keeps_its_members(content, mxc, e, key);
                },
                _ => {},
            }
        },
        (StateView::Uploading { content }, _) => {
            assert(came_in(events, i, content));
        },
        _ => {},
    }
}

/// What is uploaded again in plain is what the attachment decrypts to with the key that
/// came in, under the name and with the type that were kept with that key.
pub proof fn plain_upload_is_the_attachment(req: SendView, events: Seq<EventView>, i: int)
    requires
        0 <= i < events.len(),
    ensures
        encrypt::step_on(req, events, i) matches StepView::Upload(u) ==> (
        events[i] matches EventView::Downloaded(Ok((status, bytes))) && 200 <= status <= 299
            && exists|entry: EntryView| #[trigger]
            key_came_in(events, i, entry) && media::attachment(bytes, entry.info)
                == AttachmentView::Plain(u.body) && u.filename == entry.filename && u.content_type
                == (match entry.mimetype {
                Some(m) => m,
                None => "application/octet-stream"@,
            }) && u.path == "/_matrix/media/v3/upload"@),
{
    let before = events.take(i);
    lemma_held(req, before);
    lemma_taken(events, i);
    match encrypt::state_after(req, before) {
        StateView::Downloading { entry, .. } => {
            assert(key_came_in(events, i, entry));
        },
        _ => {},
    }
}

/// The response to a message, made of the homeserver's reply: its status, and its body as
/// JSON.
pub open spec fn answers(response: Result<ResponseView, ProxyErrorView>, status: u16, body:
    JsonView) -> bool {
    response == Ok::<ResponseView, ProxyErrorView>(
        ResponseView {
            status,
            headers: seq![("content-type"@, encode_utf8("application/json"@))],
            body: encode_utf8(json_text::json_text(body)),
        },
    )
}

/// How a message for an encrypted room goes: it is encrypted as it came, and goes out as an
/// encrypted event of the same room, in the client's transaction; and the client gets the
/// homeserver's reply.
pub proof fn message_to_encrypted_room(
    req: SendView,
    bytes: Seq<u8>,
    content: JsonView,
    encrypted: JsonView,
    status: u16,
    reply: JsonView,
)
    requires
        req.room_id.len() > 0,
        req.room_id[0] == '!',
        !req.room_id.contains('\0'),
        req.event_type != "m.room.encrypted"@,
        json_text::parsed(bytes) == Ok::<JsonView, Seq<char>>(content),
        100 <= status <= 999,
    ensures
        ({
            let a = encrypt::send_next(req, StateView::Start, EventView::Begin);
            let b = encrypt::send_next(req, a.0, EventView::Checked(Ok(true)));
            let c = encrypt::send_next(req, b.0, EventView::Body(Ok(bytes)));
            let d = encrypt::send_next(req, c.0, EventView::Entry(None));
            let e = encrypt::send_next(req, d.0, EventView::Encrypted(Ok(encrypted)));
            let f = encrypt::send_next(req, e.0, EventView::Replied(Ok((status, reply))));
            &&& a.1 is CheckEncryption
            &&& b.1 is ReadBody
            &&& c.1 == StepView::LookUp(attachments::text_in(content.get("url"@)))
            &&& d.1 == StepView::Encrypt(content)
            &&& e.1 == StepView::Forward(
                (RequestView {
                    method: "PUT"@,
                    path: "/_matrix/client/v3/rooms/"@ + percent::encoded_text(req.room_id)
                        + "/send/m.room.encrypted/"@ + percent::encoded_text(req.txn_id),
                    body: Some(encrypted),
                }),
            )
            &&& f.0 is Done
            &&& f.1 matches StepView::Respond(r) && answers(r, status, reply)
        }),
{
}

/// How a message for an unencrypted room goes: as it came, along the client's own path; and
/// the client gets the homeserver's reply.
pub proof fn message_to_unencrypted_room(
    req: SendView,
    bytes: Seq<u8>,
    content: JsonView,
    status: u16,
    reply: JsonView,
)
    requires
        req.room_id.len() > 0,
        req.room_id[0] == '!',
        !req.room_id.contains('\0'),
        req.event_type != "m.room.encrypted"@,
        json_text::parsed(bytes) == Ok::<JsonView, Seq<char>>(content),
        100 <= status <= 999,
    ensures
        ({
            let a = encrypt::send_next(req, StateView::Start, EventView::Begin);
            let b = encrypt::send_next(req, a.0, EventView::Checked(Ok(false)));
            let c = encrypt::send_next(req, b.0, EventView::Body(Ok(bytes)));
            let d = encrypt::send_next(req, c.0, EventView::Entry(None));
            let e = encrypt::send_next(req, d.0, EventView::Replied(Ok((status, reply))));
            &&& d.1 == StepView::Forward(
                (RequestView { method: "PUT"@, path: req.path, body: Some(content) }),
            )
            &&& e.0 is Done
            &&& e.1 matches StepView::Respond(r) && answers(r, status, reply)
        }),
{
}

/// How a message with an encrypted attachment goes to an unencrypted room: the attachment is
/// downloaded from where its URI points, decrypted, uploaded in plain, and the message
/// points to that upload. No server's name holds a `/`.
pub proof fn attachment_to_unencrypted_room(
    req: SendView,
    content: JsonView,
    server: Seq<char>,
    media_id: Seq<char>,
    entry: EntryView,
    data: Seq<u8>,
    downloaded: Seq<u8>,
    uploaded: Seq<u8>,
    reply: JsonView,
    mxc: Seq<char>,
    statuses: (u16, u16),
    key: Seq<char>,
)
    requires
        200 <= statuses.0 <= 299,
        200 <= statuses.1 <= 299,
        !server.contains('/'),
        content is Object,
        content.get("url"@) == Some(JsonView::Str("mxc://"@ + server + "/"@ + media_id)),
        media::attachment(downloaded, entry.info) == AttachmentView::Plain(data),
        json_text::parsed(uploaded) == Ok::<JsonView, Seq<char>>(reply),
        reply.get("content_uri"@) == Some(JsonView::Str(mxc)),
    ensures
        ({
            let d = encrypt::send_next(
                req,
                StateView::LookingUp { encrypted: false, content },
                EventView::Entry(Some(entry)),
            );
            let e = encrypt::send_next(
                req,
                d.0,
                EventView::Downloaded(Ok((statuses.0, downloaded))),
            );
            let f = encrypt::send_next(
                req,
                e.0,
                EventView::Uploaded(Ok((statuses.1, uploaded))),
            );
            &&& d.1 == StepView::Download(
                "/_matrix/client/v1/media/download/"@ + percent::encoded_text(server) + "/"@
                    + percent::encoded_text(media_id),
            )
            &&& e.1 matches StepView::Upload(u)
            &&& u.body == data
            &&& f.1 matches StepView::Forward(r)
            &&& r.method == "PUT"@
            &&& r.path == req.path
            &&& r.body matches Some(sent)
            &&& sent is Object
            &&& sent.get("url"@) == Some(JsonView::Str(mxc))
            &&& key != "url"@ ==> sent.get(key) == content.get(key)
        }),
{
    media::uri_names_attachment(server, media_id);
}

/// What fails on the way ends with an internal error that holds why, and nothing goes out
/// any more.
pub proof fn failures_end_the_message(
    req: SendView,
    content: JsonView,
    entry: EntryView,
    why: Seq<Seq<char>>,
    later: EventView,
)
    ensures
        ends(req, StateView::Checking, EventView::Checked(Err(why)), why, later),
        ends(req, StateView::Encrypting, EventView::Encrypted(Err(why)), why, later),
        ends(
            req,
            StateView::Downloading { content, entry },
            EventView::Downloaded(Err(why)),
            why,
            later,
        ),
        ends(req, StateView::Uploading { content }, EventView::Uploaded(Err(why)), why, later),
        ends(req, StateView::Forwarding, EventView::Replied(Err(why)), why, later),
{
    assert forall|context: Seq<char>| (#[trigger] (seq![context] + why)).skip(1) == why by {
        assert((seq![context] + why).skip(1) =~= why);
    }
}

/// Whether an event ends the handling of a message with an internal error that holds why.
pub open spec fn ends(
    req: SendView,
    state: StateView,
    event: EventView,
    why: Seq<Seq<char>>,
    later: EventView,
) -> bool {
    let next = encrypt::send_next(req, state, event);
    &&& next.1 matches StepView::Respond(Err(ProxyErrorView::Internal(f)))
    &&& f.len() == why.len() + 1
    &&& f.skip(1) == why
    &&& encrypt::send_next(req, next.0, later) == (StateView::Done, StepView::Stop)
}

/// A body that cannot be read, or that is no JSON, is the client's mistake, and the answer
/// says why.
pub proof fn bad_bodies_are_refused(
    req: SendView,
    encrypted: bool,
    bytes: Seq<u8>,
    unread: Seq<char>,
)
    ensures
        json_text::parsed(bytes) matches Err(why) ==> (encrypt::send_next(
            req,
            StateView::Reading { encrypted },
            EventView::Body(Ok(bytes)),
        ).1 matches StepView::Respond(Err(ProxyErrorView::BadRequest(m))) && why.is_suffix_of(m)),
        encrypt::send_next(
            req,
            StateView::Reading { encrypted },
            EventView::Body(Err(unread)),
        ).1 matches StepView::Respond(Err(ProxyErrorView::BadRequest(m))) && unread.is_suffix_of(m),
{
}

/// Room keys are made by the settings that the room has, and by the usual ones where it has
/// none: Megolm, a week, a hundred messages. They go to all devices. The visibility of the
/// room's history goes with them as it is.
pub proof fn room_settings_are_used(room: Option<SettingsView>, visibility: Seq<char>)
    ensures
        ({
            let s = encrypt::settings_for(room, visibility);
            &&& s.history_visibility == visibility
            &&& s.sharing_strategy == SharingStrategy::AllDevices
            &&& room matches Some(r) ==> s.algorithm == r.algorithm
            &&& room is None ==> s.algorithm == "m.megolm.v1.aes-sha2"@
            &&& (room matches Some(r) && r.session_rotation_period is Some) ==> Some(
                s.rotation_period,
            ) == (room->0).session_rotation_period
            &&& !(room matches Some(r) && r.session_rotation_period is Some) ==> s.rotation_period
                == 7 * 24 * 60 * 60 * 1000
            &&& (room matches Some(r) && r.session_rotation_period_messages is Some)
                ==> s.rotation_period_msgs == (room->0).session_rotation_period_messages->0
            &&& !(room matches Some(r) && r.session_rotation_period_messages is Some)
                ==> s.rotation_period_msgs == 100
        }),
{
}

/// How an event is encrypted for a room: its members are looked up and tracked; queries for
/// them are sent; one-time keys are claimed where a session is missing; the room key is
/// shared with those members by the room's settings; and then the content is encrypted as
/// it was given.
pub proof fn encryption_goes_through(
    req: EncryptRequestView,
    members: Seq<Seq<char>>,
    missing: bool,
    stored: Option<SettingsView>,
    visibility: Seq<char>,
    text: Seq<char>,
    content: JsonView,
)
    requires
        json_text::parsed(encode_utf8(text)) == Ok::<JsonView, Seq<char>>(content),
    ensures
        ({
            let a = encrypt::encrypt_next(req, EncryptStateView::Start, EncryptEventView::Begin);
            let b = encrypt::encrypt_next(req, a.0, EncryptEventView::Members(members));
            let c = encrypt::encrypt_next(req, b.0, EncryptEventView::Through);
            let d = encrypt::encrypt_next(req, c.0, EncryptEventView::Through);
            let e = encrypt::encrypt_next(req, d.0, EncryptEventView::Missing(missing));
            let f = if missing {
                encrypt::encrypt_next(req, e.0, EncryptEventView::Through)
            } else {
                e
            };
            let g = encrypt::encrypt_next(
                req,
                f.0,
                EncryptEventView::Settings(stored, visibility),
            );
            let h = encrypt::encrypt_next(req, g.0, EncryptEventView::Shares(0));
            let i = encrypt::encrypt_next(req, h.0, EncryptEventView::Encrypted(text));
            &&& a.1 == (EncryptStepView::LookUpMembers { room_id: req.room_id })
            &&& b.1 == (EncryptStepView::Track { members })
            &&& c.1 is Pump
            &&& d.1 == (EncryptStepView::FindMissing { members })
            &&& missing ==> e.1 is Claim
            &&& f.1 == (EncryptStepView::LookUpSettings { room_id: req.room_id })
            &&& g.1 matches EncryptStepView::Share { room_id, members: m, settings }
            &&& room_id == req.room_id
            &&& m == members
            &&& settings == encrypt::settings_for(stored, visibility)
            &&& h.1 == (EncryptStepView::Encrypt {
                room_id: req.room_id,
                event_type: req.event_type,
                content: req.content,
            })
            &&& i.1 == EncryptStepView::Finish(Ok(content))
        }),
{
}

/// Every share of a room key is sent, one after the other, before the content is encrypted.
pub proof fn shares_are_sent_in_turn(req: EncryptRequestView, shares: usize, next: usize)
    requires
        next < shares,
    ensures
        ({
            let first = encrypt::encrypt_next(
                req,
                EncryptStateView::Sharing,
                EncryptEventView::Shares(shares),
            );
            let r = encrypt::encrypt_next(
                req,
                EncryptStateView::SendingShare { shares, next },
                EncryptEventView::Through,
            );
            &&& first == (
                (EncryptStateView::SendingShare { shares, next: 0 }),
                EncryptStepView::SendShare(0),
            )
            &&& next + 1 < shares ==> r == (
                (EncryptStateView::SendingShare { shares, next: (next + 1) as usize }),
                EncryptStepView::SendShare((next + 1) as usize),
            )
            &&& next + 1 == shares ==> r.1 is Encrypt
        }),
{
}

/// Encrypted content that is no JSON is a failure that says why.
pub proof fn unreadable_encryption_fails(req: EncryptRequestView, text: Seq<char>)
    ensures
        json_text::parsed(encode_utf8(text)) matches Err(why) ==> (encrypt::encrypt_next(
            req,
            EncryptStateView::Encrypting,
            EncryptEventView::Encrypted(text),
        ).1 matches EncryptStepView::Finish(Err(f)) && f.len() == 2 && f[1] == why),
{
}

/// A message of a verification goes to its room, under its transaction: encrypted, where it
/// was encrypted, and else as it is.
pub proof fn verification_message_goes_to_its_room(
    r: RoomMessageRequest,
    encrypted: Option<JsonView>,
)
    ensures
        ({
            let sent = encrypt::room_message_http(r, encrypted);
            &&& sent.method == "PUT"@
            &&& sent.body == Some(
                match encrypted {
                    Some(content) => content,
                    None => r.content@,
                },
            )
            &&& sent.path == "/_matrix/client/v3/rooms/"@ + percent::encoded_text(r.room_id@)
                + "/send/"@ + percent::encoded_text(
                match encrypted {
                    Some(_) => "m.room.encrypted"@,
                    None => r.event_type@,
                },
            ) + "/"@ + percent::encoded_text(r.txn_id@)
        }),
{
}

/// A message is handed on as it is exactly where its path names no room, or where it is
/// encrypted already; otherwise it is found out first whether its room is encrypted.
pub proof fn first_step_of_a_message(req: SendView)
    ensures
        ({
            let is_room = req.room_id.len() > 0 && req.room_id[0] == '!' && !req.room_id.contains(
                '\0',
            );
            let a = encrypt::send_next(req, StateView::Start, EventView::Begin);
            &&& !is_room || req.event_type == "m.room.encrypted"@ ==> a == (
                StateView::Done,
                StepView::PassThrough,
            )
            &&& is_room && req.event_type != "m.room.encrypted"@ ==> a == (
                StateView::Checking,
                StepView::CheckEncryption,
            )
        }),
{
}

/// Nothing is done for a message, or for an encryption, that has come to its end.
pub proof fn ended_messages_stay_ended(
    req: SendView,
    event: EventView,
    encryption: EncryptRequestView,
    later: EncryptEventView,
)
    ensures
        encrypt::send_next(req, StateView::Done, event) == (StateView::Done, StepView::Stop),
        encrypt::encrypt_next(encryption, EncryptStateView::Done, later) == (
            EncryptStateView::Done,
            EncryptStepView::Stop,
        ),
{
}

/// A failure of an encryption is told whole: all its messages are kept, and at most one that
/// says what failed comes before them.
pub proof fn encryption_failures_are_told(
    req: EncryptRequestView,
    state: EncryptStateView,
    why: Seq<Seq<char>>,
)
    requires
        !(state is Start),
        !(state is Done),
    ensures
        encrypt::encrypt_next(req, state, EncryptEventView::Failed(why)) matches (
            EncryptStateView::Done,
            EncryptStepView::Finish(Err(f)),
        ) && (f == why || (f.len() == why.len() + 1 && f.skip(1) == why)),
{
    assert forall|context: Seq<char>| (#[trigger] (seq![context] + why)).skip(1) == why by {
        assert((seq![context] + why).skip(1) =~= why);
    }
}

/// The body of a message may have four mebibytes, and an upload half a gibibyte.
pub proof fn sizes_are_bounded()
    ensures
        encrypt::MAX_SEND_BYTES == 4 * 1024 * 1024,
        media::MAX_UPLOAD_BYTES == 512 * 1024 * 1024,
{
}

/// Whether a step answers the client with an internal error, as the last one.
pub open spec fn gives_up(next: (StateView, StepView)) -> bool {
    next.0 is Done && (next.1 matches StepView::Respond(Err(ProxyErrorView::Internal(_))))
}

/// An attachment that cannot be brought into an unencrypted room keeps its message from
/// going out: one with a URI that is none, one that the homeserver does not hand out or that
/// cannot be decrypted, and one that it does not take or gives no URI.
pub proof fn failed_attachments_stop_the_message(
    req: SendView,
    content: JsonView,
    uri: Seq<char>,
    entry: EntryView,
    status: u16,
    bytes: Seq<u8>,
)
    requires
        content.get("url"@) == Some(JsonView::Str(uri)),
    ensures
        !"mxc://"@.is_prefix_of(uri) ==> gives_up(
            encrypt::send_next(
                req,
                StateView::LookingUp { encrypted: false, content },
                EventView::Entry(Some(entry)),
            ),
        ),
        status < 200 || status > 299 || !(media::attachment(bytes, entry.info) is Plain)
            ==> gives_up(
            encrypt::send_next(
                req,
                StateView::Downloading { content, entry },
                EventView::Downloaded(Ok((status, bytes))),
            ),
        ),
        (status < 200 || status > 299 || match json_text::parsed(bytes) {
            Ok(reply) => !(reply.get("content_uri"@) matches Some(JsonView::Str(_))),
            Err(_) => true,
        }) ==> gives_up(
            encrypt::send_next(
                req,
                StateView::Uploading { content },
                EventView::Uploaded(Ok((status, bytes))),
            ),
        ),
{
    attachments::other_texts_are_no_attachments(uri);
}

/// A message without the URI of an attachment, or whose attachment was uploaded in plain,
/// goes to an unencrypted room as it is, whatever key is found.
pub proof fn plain_messages_go_out_at_once(
    req: SendView,
    content: JsonView,
    entry: Option<EntryView>,
)
    requires
        entry is None || !(content.get("url"@) matches Some(JsonView::Str(_))),
    ensures
        encrypt::send_next(
            req,
            StateView::LookingUp { encrypted: false, content },
            EventView::Entry(entry),
        ) == (
            StateView::Forwarding,
            StepView::Forward(
                (RequestView { method: "PUT"@, path: req.path, body: Some(content) }),
            ),
        ),
{
}

} // verus!
