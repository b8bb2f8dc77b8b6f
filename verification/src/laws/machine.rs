//! The crypto machine's requests: what each asks of the homeserver, and when it counts as
//! sent.

use crate::crypto::machine;
use crate::crypto::machine::{
    KeysClaimRequest, OutgoingRequest, PumpEvent, PumpState, PumpStep, RoomMessageRequest,
    ToDeviceRequest,
};
use crate::failure::Failure;
use crate::json::{Json, JsonView};
use crate::json_text;
use crate::percent;
use crate::wire;
use crate::wire::{Reply, RequestView};
use vstd::prelude::*;
use vstd::string::*;
use vstd::utf8::*;

verus! {

proof fn lemma_words()
    ensures
        "device_keys"@ != "one_time_keys"@,
        "device_keys"@ != "fallback_keys"@,
        "device_keys"@ != "timeout"@,
        "one_time_keys"@ != "fallback_keys"@,
        "one_time_keys"@ != "timeout"@,
{
    reveal_strlit("device_keys");
    reveal_strlit("one_time_keys");
    reveal_strlit("fallback_keys");
    reveal_strlit("timeout");
    assert("device_keys"@.len() == 11 && "timeout"@.len() == 7);
    assert("one_time_keys"@.len() == 13 && "fallback_keys"@.len() == 13);
    assert("one_time_keys"@[0] == 'o' && "fallback_keys"@[0] == 'f');
}

/// Whether a request has a method, a path, and an object as its body.
pub open spec fn asks(r: RequestView, method: Seq<char>, path: Seq<char>) -> bool {
    &&& r.method == method
    &&& r.path == path
    &&& r.body matches Some(body) && body is Object
}

/// What a request has under a name in its body.
pub open spec fn holds(r: RequestView, key: Seq<char>) -> Option<JsonView> {
    match r.body {
        Some(body) => body.get(key),
        None => None,
    }
}

/// Keys that are uploaded, unless there are none of them.
pub open spec fn some_keys(keys: JsonView) -> Option<JsonView> {
    match keys {
        JsonView::Object(m) => if m == Map::<Seq<char>, JsonView>::empty() {
            None
        } else {
            Some(keys)
        },
        _ => Some(keys),
    }
}

/// An upload of keys holds all keys that there are, and nothing else.
pub proof fn keys_are_uploaded(
    own_keys: Option<Json>,
    one_time_keys: Json,
    fallback_keys: Json,
    key: Seq<char>,
)
    ensures
        ({
            let r = machine::outgoing_http(
                OutgoingRequest::KeysUpload { own_keys, one_time_keys, fallback_keys },
            );
            &&& asks(r, "POST"@, "/_matrix/client/v3/keys/upload"@)
            &&& holds(r, "device_keys"@) == match own_keys {
                Some(k) => Some(k@),
                None => None,
            }
            &&& holds(r, "one_time_keys"@) == some_keys(one_time_keys@)
            &&& holds(r, "fallback_keys"@) == some_keys(fallback_keys@)
            &&& key != "device_keys"@ && key != "one_time_keys"@ && key != "fallback_keys"@
                ==> holds(r, key) is None
        }),
{
    lemma_words();
}

/// A query asks for the devices that it names, and waits as long as it says.
pub proof fn devices_are_queried(device_keys: Json, timeout: Option<u64>, key: Seq<char>)
    ensures
        ({
            let r = machine::outgoing_http(OutgoingRequest::KeysQuery { device_keys, timeout });
            &&& asks(r, "POST"@, "/_matrix/client/v3/keys/query"@)
            &&& holds(r, "device_keys"@) == Some(device_keys@)
            &&& holds(r, "timeout"@) == match timeout {
                Some(t) => Some(JsonView::Natural(t)),
                None => None,
            }
            &&& key != "device_keys"@ && key != "timeout"@ ==> holds(r, key) is None
        }),
{
    lemma_words();
}

/// A claim asks for the one-time keys that it names, and waits as long as it says.
pub proof fn one_time_keys_are_claimed(claim: KeysClaimRequest, key: Seq<char>)
    ensures
        ({
            let r = machine::keys_claim_http(claim);
            &&& asks(r, "POST"@, "/_matrix/client/v3/keys/claim"@)
            &&& holds(r, "one_time_keys"@) == Some(claim.one_time_keys@)
            &&& holds(r, "timeout"@) == match claim.timeout {
                Some(t) => Some(JsonView::Natural(t)),
                None => None,
            }
            &&& key != "one_time_keys"@ && key != "timeout"@ ==> holds(r, key) is None
            &&& machine::outgoing_http(OutgoingRequest::KeysClaim(claim)) == r
        }),
{
    lemma_words();
}

/// A message to devices goes out under its type and transaction, with all its messages.
pub proof fn device_messages_are_sent(message: ToDeviceRequest, key: Seq<char>)
    ensures
        ({
            let r = machine::to_device_http(message);
            &&& asks(
                r,
                "PUT"@,
                "/_matrix/client/v3/sendToDevice/"@ + percent::encoded_text(message.event_type@)
                    + "/"@ + percent::encoded_text(message.txn_id@),
            )
            &&& holds(r, "messages"@) == Some(message.messages@)
            &&& key != "messages"@ ==> holds(r, key) is None
            &&& machine::outgoing_http(OutgoingRequest::ToDevice(message)) == r
        }),
{
}

/// Signatures and messages to rooms go out as they are; room keys go to the backup of their
/// version.
pub proof fn other_requests_are_sent(
    signed_keys: Json,
    message: RoomMessageRequest,
    version: String,
    rooms: Json,
    key: Seq<char>,
)
    ensures
        machine::outgoing_http(OutgoingRequest::SignatureUpload { signed_keys }) == (RequestView {
            method: "POST"@,
            path: "/_matrix/client/v3/keys/signatures/upload"@,
            body: Some(signed_keys@),
        }),
        machine::outgoing_http(OutgoingRequest::RoomMessage(message)) == (RequestView {
            method: "PUT"@,
            path: "/_matrix/client/v3/rooms/"@ + percent::encoded_text(message.room_id@)
                + "/send/"@ + percent::encoded_text(message.event_type@) + "/"@
                + percent::encoded_text(message.txn_id@),
            body: Some(message.content@),
        }),
        ({
            let r = machine::outgoing_http(OutgoingRequest::KeysBackup { version, rooms });
            &&& asks(
                r,
                "PUT"@,
                "/_matrix/client/v3/room_keys/keys?version="@ + percent::encoded_text(version@),
            )
            &&& holds(r, "rooms"@) == Some(rooms@)
            &&& key != "rooms"@ ==> holds(r, key) is None
        }),
{
}

/// The body of a reply counts where the reply reports success, as it is; a refusal, and no
/// reply at all, are failures.
pub proof fn successful_replies_count(
    prefix: Seq<char>,
    separator: Seq<char>,
    reply: Result<Reply, Failure>,
)
    ensures
        match reply {
            Ok(r) => if 200 <= r.status <= 299 {
                machine::accepted_body(prefix, separator, reply) == Ok::<
                    JsonView,
                    Seq<Seq<char>>,
                >(r.body@)
            } else {
                machine::accepted_body(prefix, separator, reply) matches Err(f) && f.len() == 1
                    && f[0] == prefix + wire::status_line(r.status) + separator
                    + json_text::json_text(r.body@)
            },
            Err(f) => machine::accepted_body(prefix, separator, reply) == Err::<
                JsonView,
                Seq<Seq<char>>,
            >(f@),
        },
{
}

/// A reply marks a request as sent where it is the response to a request of that kind.
pub proof fn reply_is_read_by_kind(request: OutgoingRequest, status: u16, body: Json)
    requires
        200 <= status <= 299,
    ensures
        ({
            let reply = Ok::<Reply, Failure>(Reply { status, body });
            let sent = machine::marked_body(request, reply);
            let bytes = encode_utf8(json_text::json_text(body@));
            let complaint = match request {
                OutgoingRequest::KeysUpload { .. } => machine::keys_upload_error(bytes),
                OutgoingRequest::KeysQuery { .. } => machine::keys_query_error(bytes),
                OutgoingRequest::KeysClaim(_) => machine::keys_claim_error(bytes),
                OutgoingRequest::ToDevice(_) => None,
                OutgoingRequest::SignatureUpload { .. } => machine::signature_upload_error(bytes),
                OutgoingRequest::RoomMessage(_) => machine::room_message_error(bytes),
                OutgoingRequest::KeysBackup { .. } => machine::keys_backup_error(bytes),
            };
            match complaint {
                None => sent == Ok::<JsonView, Seq<Seq<char>>>(body@),
                Some(e) => sent == Err::<JsonView, Seq<Seq<char>>>(seq![e]),
            }
        }),
{
}

/// The pump goes on to the backup once the queue is empty, backs room keys up for as long as
/// there are any, and then stops.
pub proof fn pump_backs_up_last()
    ensures
        machine::pumped(PumpState::Queue, PumpEvent::Queue(Some(0))) == (
            PumpState::Backup,
            PumpStep::FetchBackup,
        ),
        machine::pumped(PumpState::Backup, PumpEvent::Backup(true)).1 == PumpStep::SendBackup,
        machine::pumped(
            machine::pumped(PumpState::Backup, PumpEvent::Backup(true)).0,
            PumpEvent::Sent(true),
        ) == (PumpState::Backup, PumpStep::FetchBackup),
        machine::pumped(PumpState::Backup, PumpEvent::Backup(false)) == (
            PumpState::Stopped,
            PumpStep::Stop,
        ),
{
}

} // verus!
