//! Sync responses: what they tell the crypto machine, and how they reach the client.

use crate::crypto::decrypt;
use crate::crypto::decrypt::{process_sync_body, Decryption, DecryptionView};
use crate::error::{ProxyError, ProxyErrorView};
use crate::failure::Failure;
use crate::json;
use crate::json::{copy_list, Json, JsonView};
use crate::json_text;
use crate::json_text::to_value;
use crate::proxy::intercept;
use crate::proxy::intercept::{body_response, read_reply, Forwarded, ForwardedView};
use crate::string_map::StringMap;
use crate::text;
use crate::wire;
use crate::wire::{Response, ResponseView};
use vstd::prelude::*;
use vstd::utf8::*;

verus! {

/// The parts of a sync response that concern the crypto machine.
pub struct SyncChanges {
    pub to_device_events: Vec<Json>,
    /// Users whose devices changed.
    pub changed: Vec<String>,
    /// Users with whom no encrypted room is shared any more.
    pub left: Vec<String>,
    /// How many one-time keys the homeserver has, by algorithm.
    pub one_time_keys_counts: Vec<(String, u64)>,
    /// For which algorithms the homeserver has an unused fallback key, if it says.
    pub unused_fallback_keys: Option<Vec<String>>,
    pub next_batch: Option<String>,
}

/// What these parts say.
pub struct ChangesView {
    pub to_device_events: Seq<JsonView>,
    pub changed: Seq<Seq<char>>,
    pub left: Seq<Seq<char>>,
    pub one_time_keys_counts: Seq<(Seq<char>, u64)>,
    pub unused_fallback_keys: Option<Seq<Seq<char>>>,
    pub next_batch: Option<Seq<char>>,
}

/// The views of some counts.
pub open spec fn counts_view(v: Seq<(String, u64)>) -> Seq<(Seq<char>, u64)> {
    v.map_values(|c: (String, u64)| (c.0@, c.1))
}

impl SyncChanges {
    pub open spec fn view(&self) -> ChangesView {
        ChangesView {
            to_device_events: json::array_view(self.to_device_events@),
            changed: text::texts(self.changed@),
            left: text::texts(self.left@),
            one_time_keys_counts: counts_view(self.one_time_keys_counts@),
            unused_fallback_keys: crate::crypto::rooms::opt_texts(self.unused_fallback_keys),
            next_batch: text::opt_text(self.next_batch),
        }
    }
}

/// What `serde_json` says of a value that is no list of to-device events.
pub uninterp spec fn events_error(v: JsonView) -> Seq<char>;

/// `serde_json::from_value` of a list of raw `ruma::events::AnyToDeviceEvent`: any list
/// will do, and nothing else.
#[verifier::external_body]
fn events_objection(v: serde_json::Value) -> (r: Option<String>)
    ensures
        match r {
            Some(e) => !(json_text::value_json(v) is Array) && e@ == events_error(
                json_text::value_json(v),
            ),
            None => json_text::value_json(v) is Array,
        },
{
    serde_json::from_value::<Vec<ruma::serde::Raw<ruma::events::AnyToDeviceEvent>>>(v).err().map(
        |e| e.to_string(),
    )
}

/// What `serde_json` reads as `DeviceLists` from a value: the changed users and those
/// who left, or the text of the error.
pub uninterp spec fn device_lists(v: JsonView) -> Result<
    (Seq<Seq<char>>, Seq<Seq<char>>),
    Seq<char>,
>;

/// `serde_json::from_value` of
/// `ruma::api::client::sync::sync_events::DeviceLists`.
#[verifier::external_body]
fn device_lists_from(v: serde_json::Value) -> (r: Result<(Vec<String>, Vec<String>), String>)
    ensures
        match r {
            Ok((changed, left)) => device_lists(json_text::value_json(v)) == Ok::<
                (Seq<Seq<char>>, Seq<Seq<char>>),
                Seq<char>,
            >((text::texts(changed@), text::texts(left@))),
            Err(e) => device_lists(json_text::value_json(v)) == Err::<
                (Seq<Seq<char>>, Seq<Seq<char>>),
                Seq<char>,
            >(e@),
        },
{
    let lists: ruma::api::client::sync::sync_events::DeviceLists = serde_json::from_value(
        v,
    ).map_err(|e: serde_json::Error| e.to_string())?;
    Ok(
        (
            lists.changed.iter().map(|u| u.to_string()).collect(),
            lists.left.iter().map(|u| u.to_string()).collect(),
        ),
    )
}

/// What `serde_json` reads as counts of one-time keys from a value, in the order of
/// their algorithms, or the text of the error.
pub uninterp spec fn key_counts(v: JsonView) -> Result<Seq<(Seq<char>, u64)>, Seq<char>>;

/// `serde_json::from_value` of a map from `ruma::OneTimeKeyAlgorithm` to `ruma::UInt`.
#[verifier::external_body]
fn key_counts_from(v: serde_json::Value) -> (r: Result<Vec<(String, u64)>, String>)
    ensures
        match r {
            Ok(counts) => key_counts(json_text::value_json(v)) == Ok::<
                Seq<(Seq<char>, u64)>,
                Seq<char>,
            >(counts_view(counts@)),
            Err(e) => key_counts(json_text::value_json(v)) == Err::<
                Seq<(Seq<char>, u64)>,
                Seq<char>,
            >(e@),
        },
{
    let counts: std::collections::BTreeMap<ruma::OneTimeKeyAlgorithm, ruma::UInt> =
        serde_json::from_value(v).map_err(|e: serde_json::Error| e.to_string())?;
    Ok(counts.into_iter().map(|(k, n)| (k.to_string(), u64::from(n))).collect())
}

/// The texts of a list of strings.
pub open spec fn texts_in(v: JsonView) -> Option<Seq<Seq<char>>> {
    match v {
        JsonView::Array(items) => if forall|i: int|
            0 <= i < items.len() ==> (#[trigger] items[i]) is Str {
            Some(Seq::new(items.len(), |i: int| items[i]->Str_0))
        } else {
            None
        },
        _ => None,
    }
}

/// What `serde_json` says of a value that is no list of key algorithms.
pub uninterp spec fn algorithms_error(v: JsonView) -> Seq<char>;

/// `serde_json::from_value` of a list of `ruma::OneTimeKeyAlgorithm`, each as its name:
/// any list of strings will do, and nothing else.
#[verifier::external_body]
fn algorithms_from(v: serde_json::Value) -> (r: Result<Vec<String>, String>)
    ensures
        match texts_in(json_text::value_json(v)) {
            Some(names) => r matches Ok(a) && text::texts(a@) == names,
            None => r matches Err(e) && e@ == algorithms_error(json_text::value_json(v)),
        },
{
    let algorithms: Vec<ruma::OneTimeKeyAlgorithm> = serde_json::from_value(v).map_err(
        |e: serde_json::Error| e.to_string(),
    )?;
    Ok(algorithms.iter().map(|a| a.to_string()).collect())
}

/// The to-device events of a sync response.
pub open spec fn to_device_in(body: JsonView) -> Result<Seq<JsonView>, Seq<Seq<char>>> {
    match body.get2("to_device"@, "events"@) {
        Some(JsonView::Array(events)) => Ok(events),
        Some(other) => Err(
            seq!["invalid to_device.events in sync response"@, events_error(other)],
        ),
        None => Ok(Seq::empty()),
    }
}

/// The device lists of a sync response.
pub open spec fn devices_in(body: JsonView) -> Result<
    (Seq<Seq<char>>, Seq<Seq<char>>),
    Seq<Seq<char>>,
> {
    match body.get("device_lists"@) {
        Some(v) => match device_lists(v) {
            Ok(lists) => Ok(lists),
            Err(e) => Err(seq!["invalid device_lists in sync response"@, e]),
        },
        None => Ok((Seq::empty(), Seq::empty())),
    }
}

/// The key counts of a sync response.
pub open spec fn counts_in(body: JsonView) -> Result<Seq<(Seq<char>, u64)>, Seq<Seq<char>>> {
    match body.get("device_one_time_keys_count"@) {
        Some(v) => match key_counts(v) {
            Ok(counts) => Ok(counts),
            Err(e) => Err(seq!["invalid device_one_time_keys_count in sync response"@, e]),
        },
        None => Ok(Seq::empty()),
    }
}

/// The fallback keys of a sync response, under their name or the older unstable one.
pub open spec fn fallback_in(body: JsonView) -> Result<Option<Seq<Seq<char>>>, Seq<Seq<char>>> {
    let found = match body.get("device_unused_fallback_key_types"@) {
        Some(v) => Some(v),
        None => body.get("org.matrix.msc2732.device_unused_fallback_key_types"@),
    };
    match found {
        Some(v) => match texts_in(v) {
            Some(names) => Ok(Some(names)),
            None => Err(
                seq![
                    "invalid device_unused_fallback_key_types in sync response"@,
                    algorithms_error(v),
                ],
            ),
        },
        None => Ok(None),
    }
}

/// What a sync response tells the crypto machine. The first part that cannot be read
/// makes it fail.
pub open spec fn changes_in(body: JsonView) -> Result<ChangesView, Seq<Seq<char>>> {
    match to_device_in(body) {
        Err(f) => Err(f),
        Ok(to_device_events) => match devices_in(body) {
            Err(f) => Err(f),
            Ok((changed, left)) => match counts_in(body) {
                Err(f) => Err(f),
                Ok(one_time_keys_counts) => match fallback_in(body) {
                    Err(f) => Err(f),
                    Ok(unused_fallback_keys) => Ok(
                        ChangesView {
                            to_device_events,
                            changed,
                            left,
                            one_time_keys_counts,
                            unused_fallback_keys,
                            next_batch: body.get_text("next_batch"@),
                        },
                    ),
                },
            },
        },
    }
}

/// What changes say, or why there are none.
pub open spec fn changes_result(r: Result<SyncChanges, Failure>) -> Result<
    ChangesView,
    Seq<Seq<char>>,
> {
    match r {
        Ok(c) => Ok(c@),
        Err(f) => Err(f@),
    }
}

/// Reads what a sync response tells the crypto machine.
pub fn receive_sync_changes(body: &Json) -> (r: Result<SyncChanges, Failure>)
    ensures
        changes_result(r) == changes_in(body@),
{
    let to_device_events: Vec<Json> = match body.get2("to_device", "events") {
        Some(v) => match events_objection(to_value(v)) {
            Some(e) => {
                return Err(Failure::caused("invalid to_device.events in sync response", e.as_str()));
            },
            None => match v {
                Json::Array(events) => copy_list(events),
                _ => Vec::new(),
            },
        },
        None => {
            let none: Vec<Json> = Vec::new();
            proof {
                json::lemma_array_view(none@);
                assert(json::array_view(none@) =~= Seq::empty());
            }
            none
        },
    };
    let (changed, left): (Vec<String>, Vec<String>) = match body.get("device_lists") {
        Some(v) => match device_lists_from(to_value(v)) {
            Ok(lists) => lists,
            Err(e) => {
                return Err(Failure::caused("invalid device_lists in sync response", e.as_str()));
            },
        },
        None => {
            let none: (Vec<String>, Vec<String>) = (Vec::new(), Vec::new());
            assert(text::texts(none.0@) =~= Seq::empty());
            assert(text::texts(none.1@) =~= Seq::empty());
            none
        },
    };
    let one_time_keys_counts: Vec<(String, u64)> = match body.get("device_one_time_keys_count") {
        Some(v) => match key_counts_from(to_value(v)) {
            Ok(counts) => counts,
            Err(e) => {
                return Err(
                    Failure::caused(
                        "invalid device_one_time_keys_count in sync response",
                        e.as_str(),
                    ),
                );
            },
        },
        None => {
            let none: Vec<(String, u64)> = Vec::new();
            assert(counts_view(none@) =~= Seq::empty());
            none
        },
    };
    let found = match body.get("device_unused_fallback_key_types") {
        Some(v) => Some(v),
        None => body.get("org.matrix.msc2732.device_unused_fallback_key_types"),
    };
    let unused_fallback_keys: Option<Vec<String>> = match found {
        Some(v) => match algorithms_from(to_value(v)) {
            Ok(names) => Some(names),
            Err(e) => {
                return Err(
                    Failure::caused(
                        "invalid device_unused_fallback_key_types in sync response",
                        e.as_str(),
                    ),
                );
            },
        },
        None => None,
    };
    Ok(
        SyncChanges {
            to_device_events,
            changed,
            left,
            one_time_keys_counts,
            unused_fallback_keys,
            next_batch: body.get_text("next_batch"),
        },
    )
}

/// Where the handling of a sync stands.
pub enum SyncState {
    /// Nothing has been done yet.
    Start,
    /// It waits for the homeserver's reply.
    Fetching,
    /// It waits for the crypto machine to take in what the response tells it.
    Feeding { content_type: Option<Vec<u8>>, body: Json },
    /// It waits for the events of the response to be decrypted.
    Decrypting { content_type: Option<Vec<u8>>, body: Json },
    /// It has come to an end.
    Done,
}

/// What has come in.
pub enum SyncEvent {
    Begin,
    /// The status, the content type and the bytes of the homeserver's reply, or why there
    /// is none.
    Fetched(Result<(u16, Option<Vec<u8>>, Vec<u8>), ProxyError>),
    /// The crypto machine has taken the changes in, or has failed.
    Fed(Result<(), Failure>),
    /// What became of the timelines of joined and of left rooms.
    Decrypted { joined: StringMap<Vec<Decryption>>, left: StringMap<Vec<Decryption>> },
}

/// What is to be done next.
pub enum SyncStep {
    /// Forward the sync to the homeserver.
    Fetch,
    /// Hand the changes to the crypto machine.
    Feed(SyncChanges),
    /// Take note of the room state in the body, and decrypt its timelines.
    Decrypt(Json),
    /// Answer the client with a refusal or an error.
    Refuse(Result<Response, ProxyError>),
    /// Answer the client with the rewritten response, and send what the crypto machine has
    /// queued on account of it.
    Deliver(Result<Response, ProxyError>),
    /// Nothing.
    Stop,
}

/// Where the handling of a sync stands.
pub enum StateView {
    Start,
    Fetching,
    Feeding { content_type: Option<Seq<u8>>, body: JsonView },
    Decrypting { content_type: Option<Seq<u8>>, body: JsonView },
    Done,
}

/// What has come in.
pub enum EventView {
    Begin,
    Fetched(Result<(u16, Option<Seq<u8>>, Seq<u8>), ProxyErrorView>),
    Fed(Result<(), Seq<Seq<char>>>),
    Decrypted {
        joined: Map<Seq<char>, Seq<DecryptionView>>,
        left: Map<Seq<char>, Seq<DecryptionView>>,
    },
}

/// What is to be done next.
pub enum StepView {
    Fetch,
    Feed(ChangesView),
    Decrypt(JsonView),
    Refuse(Result<ResponseView, ProxyErrorView>),
    Deliver(Result<ResponseView, ProxyErrorView>),
    Stop,
}

impl SyncState {
    pub open spec fn view(&self) -> StateView {
        match self {
            SyncState::Start => StateView::Start,
            SyncState::Fetching => StateView::Fetching,
            SyncState::Feeding { content_type, body } => StateView::Feeding {
                content_type: wire::opt_bytes(*content_type),
                body: body@,
            },
            SyncState::Decrypting { content_type, body } => StateView::Decrypting {
                content_type: wire::opt_bytes(*content_type),
                body: body@,
            },
            SyncState::Done => StateView::Done,
        }
    }
}

impl SyncEvent {
    pub open spec fn view(&self) -> EventView {
        match self {
            SyncEvent::Begin => EventView::Begin,
            SyncEvent::Fetched(r) => EventView::Fetched(
                match r {
                    Ok((status, content_type, bytes)) => Ok(
                        (*status, wire::opt_bytes(*content_type), bytes@),
                    ),
                    Err(e) => Err(e@),
                },
            ),
            SyncEvent::Fed(r) => EventView::Fed(
                match r {
                    Ok(_) => Ok(()),
                    Err(f) => Err(f@),
                },
            ),
            SyncEvent::Decrypted { joined, left } => EventView::Decrypted {
                joined: decrypt::room_decryptions(joined@),
                left: decrypt::room_decryptions(left@),
            },
        }
    }
}

impl SyncStep {
    pub open spec fn view(&self) -> StepView {
        match self {
            SyncStep::Fetch => StepView::Fetch,
            SyncStep::Feed(c) => StepView::Feed(c@),
            SyncStep::Decrypt(body) => StepView::Decrypt(body@),
            SyncStep::Refuse(r) => StepView::Refuse(intercept::outcome(*r)),
            SyncStep::Deliver(r) => StepView::Deliver(intercept::outcome(*r)),
            SyncStep::Stop => StepView::Stop,
        }
    }
}

/// How it goes on with the homeserver's reply. A refusal is handed on as it is.
pub open spec fn fetched_next(status: u16, content_type: Option<Seq<u8>>, bytes: Seq<u8>) -> (
    StateView,
    StepView,
) {
    match intercept::read("sync response is not valid JSON"@, status, content_type, bytes) {
        Err(e) => (StateView::Done, StepView::Refuse(Err(e))),
        Ok(ForwardedView::Refused(response)) => (
            StateView::Done,
            StepView::Refuse(Ok(response)),
        ),
        Ok(ForwardedView::Body { content_type, body }) => match changes_in(body) {
            Err(f) => (StateView::Done, StepView::Refuse(Err(ProxyErrorView::Internal(f)))),
            Ok(changes) => (StateView::Feeding { content_type, body }, StepView::Feed(changes)),
        },
    }
}

/// The next state of a sync, and what is to be done.
pub open spec fn sync_next(state: StateView, event: EventView) -> (StateView, StepView) {
    match (state, event) {
        (StateView::Start, EventView::Begin) => (StateView::Fetching, StepView::Fetch),
        (StateView::Fetching, EventView::Fetched(Err(e))) => (
            StateView::Done,
            StepView::Refuse(Err(e)),
        ),
        (StateView::Fetching, EventView::Fetched(Ok((status, content_type, bytes)))) => {
            fetched_next(status, content_type, bytes)
        },
        (StateView::Feeding { .. }, EventView::Fed(Err(f))) => (
            StateView::Done,
            StepView::Refuse(
                Err(ProxyErrorView::Internal(seq!["receive_sync_changes failed"@] + f)),
            ),
        ),
        (StateView::Feeding { content_type, body }, EventView::Fed(Ok(_))) => (
            StateView::Decrypting { content_type, body },
            StepView::Decrypt(body),
        ),
        (StateView::Decrypting { content_type, body }, EventView::Decrypted { joined, left }) => (
            StateView::Done,
            StepView::Deliver(
                intercept::rewritten_response(
                    content_type,
                    decrypt::sync_form(body, joined, left),
                ),
            ),
        ),
        _ => (StateView::Done, StepView::Stop),
    }
}

fn fetched_step(status: u16, content_type: Option<Vec<u8>>, bytes: Vec<u8>) -> (r: (
    SyncState,
    SyncStep,
))
    ensures
        (r.0@, r.1@) == fetched_next(status, wire::opt_bytes(content_type), bytes@),
{
    match read_reply("sync response is not valid JSON", status, content_type, bytes) {
        Err(e) => (SyncState::Done, SyncStep::Refuse(Err(e))),
        Ok(Forwarded::Refused(response)) => (SyncState::Done, SyncStep::Refuse(Ok(response))),
        Ok(Forwarded::Body { content_type, body }) => match receive_sync_changes(&body) {
            Err(f) => (SyncState::Done, SyncStep::Refuse(Err(ProxyError::Internal(f)))),
            Ok(changes) => (SyncState::Feeding { content_type, body }, SyncStep::Feed(changes)),
        },
    }
}

/// Handles a sync, one step at a time: it is forwarded, the crypto machine takes in what
/// concerns it, the timelines are decrypted, and only then the client gets the response,
/// and with it the token that acknowledges it.
pub fn handle_sync(state: SyncState, event: SyncEvent) -> (r: (SyncState, SyncStep))
    ensures
        (r.0@, r.1@) == sync_next(state@, event@),
{
    match (state, event) {
        (SyncState::Start, SyncEvent::Begin) => (SyncState::Fetching, SyncStep::Fetch),
        (SyncState::Fetching, SyncEvent::Fetched(Err(e))) => (
            SyncState::Done,
            SyncStep::Refuse(Err(e)),
        ),
        (SyncState::Fetching, SyncEvent::Fetched(Ok((status, content_type, bytes)))) => {
            fetched_step(status, content_type, bytes)
        },
        (SyncState::Feeding { .. }, SyncEvent::Fed(Err(f))) => (
            SyncState::Done,
            SyncStep::Refuse(Err(ProxyError::Internal(f.context("receive_sync_changes failed")))),
        ),
        (SyncState::Feeding { content_type, body }, SyncEvent::Fed(Ok(_))) => {
            let shown = body.copy();
            (SyncState::Decrypting { content_type, body }, SyncStep::Decrypt(shown))
        },
        (SyncState::Decrypting { content_type, body }, SyncEvent::Decrypted { joined, left }) => {
            let mut body = body;
            process_sync_body(&mut body, &joined, &left);
            (SyncState::Done, SyncStep::Deliver(body_response(content_type, &body)))
        },
        _ => (SyncState::Done, SyncStep::Stop),
    }
}

/// The state of a sync behind some events.
pub open spec fn state_after(events: Seq<EventView>) -> StateView
    decreases events.len(),
{
    if events.len() == 0 {
        StateView::Start
    } else {
        sync_next(state_after(events.drop_last()), events.last()).0
    }
}

/// What is done on the event at place `i`.
pub open spec fn step_on(events: Seq<EventView>, i: int) -> StepView {
    sync_next(state_after(events.take(i)), events[i]).1
}

/// Whether the crypto machine was handed the changes of a body at place `j`, and had taken
/// them in when the next event came.
pub open spec fn fed_at(events: Seq<EventView>, j: int, body: JsonView) -> bool {
    &&& 0 <= j
    &&& j + 1 < events.len()
    &&& changes_in(body) matches Ok(changes) && step_on(events, j) == StepView::Feed(changes)
    &&& events[j + 1] matches EventView::Fed(Ok(_))
}

proof fn lemma_feeding(events: Seq<EventView>)
    ensures
        state_after(events) matches StateView::Feeding { body, .. } ==> events.len() > 0 && (
        changes_in(body) matches Ok(changes) && step_on(events, events.len() - 1) == StepView::Feed(
            changes,
        )),
        state_after(events) matches StateView::Decrypting { body, .. } ==> fed_at(
            events,
            events.len() - 2,
            body,
        ),
    decreases events.len(),
{
    if events.len() > 0 {
        let front = events.drop_last();
        let n = front.len() as int;
        assert(events.take(n) =~= front);
        lemma_feeding(front);
        if state_after(events) is Decrypting {
            assert(state_after(front) is Feeding);
            assert(front.take(n - 1) =~= events.take(n - 1));
            assert(front[n - 1] == events[n - 1]);
            assert(step_on(events, n - 1) == step_on(front, n - 1));
        }
    }
}

/// The client never gets a sync response that the crypto machine has not taken its part of:
/// in every run, where a rewritten response is delivered, the machine was handed what that
/// response tells it, and had taken it in, before.
pub proof fn machine_is_fed_first(events: Seq<EventView>, i: int)
    requires
        0 <= i < events.len(),
        step_on(events, i) is Deliver,
    ensures
        exists|body: JsonView, content_type: Option<Seq<u8>>| #[trigger]
            delivers(events[i], content_type, body, step_on(events, i)) && fed_at(
                events,
                i - 2,
                body,
            ),
{
    let before = events.take(i);
    lemma_feeding(before);
    match state_after(before) {
        StateView::Decrypting { content_type, body } => {
            assert(before.take(i - 2) =~= events.take(i - 2));
            assert(before[i - 2] == events[i - 2] && before[i - 1] == events[i - 1]);
            assert(delivers(events[i], content_type, body, step_on(events, i)));
        },
        _ => {},
    }
}

/// Whether a step delivers a body with its timelines decrypted.
pub open spec fn delivers(
    event: EventView,
    content_type: Option<Seq<u8>>,
    body: JsonView,
    step: StepView,
) -> bool {
    event matches EventView::Decrypted { joined, left } && step == StepView::Deliver(
        intercept::rewritten_response(content_type, decrypt::sync_form(body, joined, left)),
    )
}

/// Where the crypto machine fails, the client gets an error in place of the response.
pub proof fn unfed_sync_is_refused(
    content_type: Option<Seq<u8>>,
    body: JsonView,
    f: Seq<Seq<char>>,
    later: EventView,
)
    ensures
        ({
            let next = sync_next(
                StateView::Feeding { content_type, body },
                EventView::Fed(Err(f)),
            );
            &&& next.1 == StepView::Refuse(
                Err(ProxyErrorView::Internal(seq!["receive_sync_changes failed"@] + f)),
            )
            &&& sync_next(next.0, later).1 is Stop
        }),
{
}

} // verus!
