//! Syncs: what the crypto machine is told, and what the client gets.

use crate::crypto::decrypt;
use crate::crypto::decrypt::DecryptionView;
use crate::crypto::sync;
use crate::crypto::sync::{EventView, StateView, StepView};
use crate::error::ProxyErrorView;
use crate::json::JsonView;
use crate::json_text;
use crate::laws::media as members;
use crate::wire::ResponseView;
use vstd::prelude::*;
use vstd::string::*;
use vstd::utf8::*;

verus! {

/// What a response says of unused fallback keys: under the stable name, or else under the
/// unstable one.
pub open spec fn fallback_member(body: JsonView) -> Option<JsonView> {
    if body.get("device_unused_fallback_key_types"@) is Some {
        body.get("device_unused_fallback_key_types"@)
    } else {
        body.get("org.matrix.msc2732.device_unused_fallback_key_types"@)
    }
}

/// Whether a value is the list of some texts.
pub open spec fn lists(v: JsonView, names: Seq<Seq<char>>) -> bool {
    &&& v matches JsonView::Array(items)
    &&& items.len() == names.len()
    &&& forall|i: int| 0 <= i < names.len() ==> items[i] == JsonView::Str(#[trigger] names[i])
}

/// Whether a value is a list of texts.
pub open spec fn lists_texts(v: JsonView) -> bool {
    v matches JsonView::Array(items) && forall|i: int|
        0 <= i < items.len() ==> (#[trigger] items[i]) is Str
}

/// The crypto machine is told all that concerns it: all to-device events, the users whose
/// devices changed and those who left, the counts of one-time keys, the unused fallback
/// keys, and where the next sync begins. What is missing is empty.
pub proof fn machine_is_told_everything(body: JsonView)
    ensures
        sync::changes_in(body) matches Ok(c) ==> {
            &&& match body.get2("to_device"@, "events"@) {
                Some(JsonView::Array(events)) => c.to_device_events == events,
                Some(_) => false,
                None => c.to_device_events.len() == 0,
            }
            &&& match body.get("device_lists"@) {
                Some(v) => sync::device_lists(v) == Ok::<
                    (Seq<Seq<char>>, Seq<Seq<char>>),
                    Seq<char>,
                >((c.changed, c.left)),
                None => c.changed.len() == 0 && c.left.len() == 0,
            }
            &&& match body.get("device_one_time_keys_count"@) {
                Some(v) => sync::key_counts(v) == Ok::<Seq<(Seq<char>, u64)>, Seq<char>>(
                    c.one_time_keys_counts,
                ),
                None => c.one_time_keys_counts.len() == 0,
            }
            &&& match fallback_member(body) {
                Some(v) => c.unused_fallback_keys matches Some(names) && lists(v, names),
                None => c.unused_fallback_keys is None,
            }
            &&& c.next_batch == members::text_in(body.get("next_batch"@))
        },
{
    match fallback_member(body) {
        Some(v) => {
            match sync::texts_in(v) {
                Some(names) => {
                    assert(lists(v, names));
                },
                None => {},
            }
        },
        None => {},
    }
}

/// A response is taken in unless one of those parts cannot be read.
pub proof fn only_unreadable_parts_fail(body: JsonView)
    ensures
        sync::changes_in(body) is Ok <==> {
            &&& body.get2("to_device"@, "events"@) matches Some(v) ==> v is Array
            &&& body.get("device_lists"@) matches Some(v) ==> sync::device_lists(v) is Ok
            &&& body.get("device_one_time_keys_count"@) matches Some(v) ==> sync::key_counts(v)
                is Ok
            &&& fallback_member(body) matches Some(v) ==> lists_texts(v)
        },
{
}

/// How a sync goes: it is forwarded; the crypto machine takes in what concerns it; the
/// timelines of the body as it came are decrypted; and the client gets that body, with its
/// timelines decrypted and the content type that it came with.
pub proof fn sync_goes_through(
    status: u16,
    content_type: Option<Seq<u8>>,
    bytes: Seq<u8>,
    body: JsonView,
    joined: Map<Seq<char>, Seq<DecryptionView>>,
    left: Map<Seq<char>, Seq<DecryptionView>>,
)
    requires
        200 <= status <= 299,
        json_text::parsed(bytes) == Ok::<JsonView, Seq<char>>(body),
        sync::changes_in(body) is Ok,
    ensures
        ({
            let a = sync::sync_next(StateView::Start, EventView::Begin);
            let b = sync::sync_next(a.0, EventView::Fetched(Ok((status, content_type, bytes))));
            let c = sync::sync_next(b.0, EventView::Fed(Ok(())));
            let d = sync::sync_next(c.0, EventView::Decrypted { joined, left });
            &&& a.1 is Fetch
            &&& b.1 == StepView::Feed(sync::changes_in(body)->Ok_0)
            &&& c.1 == StepView::Decrypt(body)
            &&& d.0 is Done
            &&& d.1 matches StepView::Deliver(Ok(r))
            &&& r.status == 200
            &&& r.headers == match content_type {
                Some(ct) => seq![("content-type"@, ct)],
                None => Seq::empty(),
            }
            &&& r.body == encode_utf8(json_text::json_text(decrypt::sync_form(body, joined, left)))
        }),
{
}

/// A refusal of the homeserver is handed on as it is. What is no JSON, or cannot be taken
/// in, is an error, and so is a homeserver that cannot be reached.
pub proof fn unusable_syncs_are_refused(
    status: u16,
    content_type: Option<Seq<u8>>,
    bytes: Seq<u8>,
    e: ProxyErrorView,
    later: EventView,
)
    ensures
        sync::sync_next(StateView::Fetching, EventView::Fetched(Err(e))) == (
            StateView::Done,
            StepView::Refuse(Err(e)),
        ),
        ({
            let r = sync::sync_next(
                StateView::Fetching,
                EventView::Fetched(Ok((status, content_type, bytes))),
            );
            &&& (100 <= status < 200 || 300 <= status <= 999) ==> r.0 is Done && r.1
                == StepView::Refuse(
                Ok(
                    ResponseView {
                        status,
                        headers: match content_type {
                            Some(ct) => seq![("content-type"@, ct)],
                            None => Seq::empty(),
                        },
                        body: bytes,
                    },
                ),
            )
            &&& (status < 100 || status > 999) ==> r.0 is Done && (r.1 matches StepView::Refuse(
                Err(_),
            ))
            &&& 200 <= status <= 299 ==> match json_text::parsed(bytes) {
                Err(_) => r.0 is Done && (r.1 matches StepView::Refuse(Err(_))),
                Ok(body) => sync::changes_in(body) matches Err(f) ==> r == (
                    StateView::Done,
                    StepView::Refuse(Err(ProxyErrorView::Internal(f))),
                ),
            }
        }),
        sync::sync_next(StateView::Done, later) == (StateView::Done, StepView::Stop),
{
}

} // verus!
