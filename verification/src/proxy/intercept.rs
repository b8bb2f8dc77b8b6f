//! Responses built from what the homeserver replied.

use crate::crypto::decrypt;
use crate::crypto::decrypt::{
    process_context_body, process_event_body, process_messages_body, scan_history_state,
    Decryption, DecryptionView,
};
use crate::crypto::rooms;
use crate::crypto::rooms::{RoomSettings, RoomTracker};
use crate::error::{ProxyError, ProxyErrorView};
use crate::failure::Failure;
use crate::ids;
use crate::ids::is_room_id;
use crate::json;
use crate::json::{copy_list, Json, JsonView};
use crate::json_text;
use crate::json_text::{parse_json, write_bytes};
use crate::proxy::routes::{Route, RouteView};
use crate::text;
use crate::wire;
use crate::wire::{checked_status, content_type_header, is_success, Response, ResponseView};
use vstd::prelude::*;
use vstd::utf8::*;

verus! {

/// The view of what becomes of a request.
pub open spec fn outcome(r: Result<Response, ProxyError>) -> Result<ResponseView, ProxyErrorView> {
    match r {
        Ok(response) => Ok(response@),
        Err(e) => Err(e@),
    }
}

/// A response made of a status, a content type and bytes. The status must have three
/// digits.
pub open spec fn raw(status: u16, content_type: Option<Seq<u8>>, bytes: Seq<u8>) -> Result<
    ResponseView,
    ProxyErrorView,
> {
    if 100 <= status <= 999 {
        Ok(
            ResponseView {
                status,
                headers: wire::content_type_headers(content_type),
                body: bytes,
            },
        )
    } else {
        Err(ProxyErrorView::Internal(seq!["invalid status code"@]))
    }
}

/// Builds a response from raw bytes, with the content type of the homeserver's reply.
pub fn raw_response(status: u16, content_type: Option<Vec<u8>>, bytes: Vec<u8>) -> (r: Result<
    Response,
    ProxyError,
>)
    ensures
        outcome(r) == raw(status, wire::opt_bytes(content_type), bytes@),
{
    match checked_status(status) {
        Ok(status) => Ok(
            Response { status, headers: content_type_header(content_type), body: bytes },
        ),
        Err(e) => Err(ProxyError::Internal(Failure::new(e.as_str()))),
    }
}

/// A reply of the homeserver that is about to be rewritten.
pub enum Forwarded {
    /// A JSON body and its content type.
    Body { content_type: Option<Vec<u8>>, body: Json },
    /// A refusal, for the client as it is.
    Refused(Response),
}

/// What becomes of a reply.
pub enum ForwardedView {
    Body { content_type: Option<Seq<u8>>, body: JsonView },
    Refused(ResponseView),
}

/// The view of what becomes of a reply.
pub open spec fn forwarded(r: Result<Forwarded, ProxyError>) -> Result<
    ForwardedView,
    ProxyErrorView,
> {
    match r {
        Ok(Forwarded::Body { content_type, body }) => Ok(
            ForwardedView::Body { content_type: wire::opt_bytes(content_type), body: body@ },
        ),
        Ok(Forwarded::Refused(response)) => Ok(ForwardedView::Refused(response@)),
        Err(e) => Err(e@),
    }
}

/// What becomes of a reply: its JSON body where it reports success, an error where that
/// is no JSON, and the reply as it is where it reports anything else.
pub open spec fn read(
    complaint: Seq<char>,
    status: u16,
    content_type: Option<Seq<u8>>,
    bytes: Seq<u8>,
) -> Result<ForwardedView, ProxyErrorView> {
    if wire::success(status) {
        match json_text::parsed(bytes) {
            Ok(body) => Ok(ForwardedView::Body { content_type, body }),
            Err(e) => Err(ProxyErrorView::Internal(seq![complaint, e])),
        }
    } else {
        match raw(status, content_type, bytes) {
            Ok(response) => Ok(ForwardedView::Refused(response)),
            Err(e) => Err(e),
        }
    }
}

/// Reads a reply of the homeserver that is about to be rewritten.
pub(crate) fn read_reply(
    complaint: &str,
    status: u16,
    content_type: Option<Vec<u8>>,
    bytes: Vec<u8>,
) -> (r: Result<Forwarded, ProxyError>)
    ensures
        forwarded(r) == read(complaint@, status, wire::opt_bytes(content_type), bytes@),
{
    if !is_success(status) {
        return match raw_response(status, content_type, bytes) {
            Ok(response) => Ok(Forwarded::Refused(response)),
            Err(e) => Err(e),
        };
    }
    match parse_json(bytes.as_slice()) {
        Ok(body) => Ok(Forwarded::Body { content_type, body }),
        Err(e) => {
            let f = Failure::caused(complaint, e.as_str());
            Err(ProxyError::Internal(f))
        },
    }
}

/// Reads the homeserver's reply to a GET that was forwarded with the session's token.
/// Refusals are handed on as they are.
pub fn forward_get_json(status: u16, content_type: Option<Vec<u8>>, bytes: Vec<u8>) -> (r: Result<
    Forwarded,
    ProxyError,
>)
    ensures
        forwarded(r) == read(
            "upstream response is not valid JSON"@,
            status,
            wire::opt_bytes(content_type),
            bytes@,
        ),
{
    read_reply("upstream response is not valid JSON", status, content_type, bytes)
}

/// The room whose history a route fetches.
pub open spec fn history_room(route: RouteView) -> Option<Seq<char>> {
    match route {
        RouteView::Messages { room_id } | RouteView::Context { room_id } | RouteView::RoomEvent {
            room_id,
        } => if ids::room_id(room_id) {
            Some(room_id)
        } else {
            None
        },
        _ => None,
    }
}

/// The room whose history a route fetches, if its ID is one.
pub fn room_of_history(route: &Route) -> (r: Option<String>)
    ensures
        text::opt_text(r) == history_room(route@),
{
    match route {
        Route::Messages { room_id } => if is_room_id(room_id.as_str()) {
            Some(room_id.clone())
        } else {
            None
        },
        Route::Context { room_id } => if is_room_id(room_id.as_str()) {
            Some(room_id.clone())
        } else {
            None
        },
        Route::RoomEvent { room_id } => if is_room_id(room_id.as_str()) {
            Some(room_id.clone())
        } else {
            None
        },
        _ => None,
    }
}

/// The events of a history response that may be encrypted.
pub struct HistoryEvents {
    /// A page, or what came before an event.
    pub first: Vec<Json>,
    /// What came after an event.
    pub second: Vec<Json>,
    /// The event itself.
    pub event: Option<Json>,
}

/// What the crypto machine made of them.
pub struct HistoryOutcomes {
    pub first: Vec<Decryption>,
    pub second: Vec<Decryption>,
    pub event: Decryption,
}

/// A list of a history response; empty where the route has none.
pub open spec fn first_events(route: RouteView, body: JsonView) -> Seq<JsonView> {
    match route {
        RouteView::Messages { .. } => decrypt::list_or_empty(body, "chunk"@),
        RouteView::Context { .. } => decrypt::list_or_empty(body, "events_before"@),
        _ => Seq::empty(),
    }
}

/// The second list of a history response; empty where the route has none.
pub open spec fn second_events(route: RouteView, body: JsonView) -> Seq<JsonView> {
    match route {
        RouteView::Context { .. } => decrypt::list_or_empty(body, "events_after"@),
        _ => Seq::empty(),
    }
}

/// The single event of a history response.
pub open spec fn single_event(route: RouteView, body: JsonView) -> Option<JsonView> {
    match route {
        RouteView::Context { .. } => body.get("event"@),
        RouteView::RoomEvent { .. } => Some(body),
        _ => None,
    }
}

fn list_of(body: &Json, key: &str) -> (r: Vec<Json>)
    ensures
        json::array_view(r@) == decrypt::list_or_empty(body@, key@),
{
    match body.get_list(key) {
        Some(events) => copy_list(events),
        None => no_events(),
    }
}

fn no_events() -> (r: Vec<Json>)
    ensures
        json::array_view(r@) == Seq::<JsonView>::empty(),
{
    let none: Vec<Json> = Vec::new();
    proof {
        json::lemma_array_view(none@);
        assert(json::array_view(none@) =~= Seq::empty());
    }
    none
}

/// The events of a history response, to be decrypted.
pub fn history_events(route: &Route, body: &Json) -> (r: HistoryEvents)
    ensures
        json::array_view(r.first@) == first_events(route@, body@),
        json::array_view(r.second@) == second_events(route@, body@),
        wire::body_view(r.event) == single_event(route@, body@),
{
    match route {
        Route::Messages { .. } => HistoryEvents {
            first: list_of(body, "chunk"),
            second: no_events(),
            event: None,
        },
        Route::Context { .. } => HistoryEvents {
            first: list_of(body, "events_before"),
            second: list_of(body, "events_after"),
            event: match body.get("event") {
                Some(e) => Some(e.copy()),
                None => None,
            },
        },
        Route::RoomEvent { .. } => HistoryEvents {
            first: no_events(),
            second: no_events(),
            event: Some(body.copy()),
        },
        _ => HistoryEvents { first: no_events(), second: no_events(), event: None },
    }
}

/// The room state that a history response brings along. A single event brings none.
pub open spec fn history_state(route: RouteView, body: JsonView) -> Seq<JsonView> {
    match route {
        RouteView::Messages { .. } => decrypt::list_or_empty(body, "state"@),
        RouteView::Context { .. } => decrypt::list_or_empty(body, "state"@),
        _ => Seq::empty(),
    }
}

/// Takes note of the room state that a history response brings along, and hands out the
/// encryption settings to store. Where the room's ID is none, nothing is noted.
pub fn scan_history(tracker: &mut RoomTracker, route: &Route, body: &Json) -> (r: Vec<RoomSettings>)
    ensures
        match history_room(route@) {
            Some(room) => {
                &&& final(tracker)@ == rooms::scanned(
                    old(tracker)@,
                    room,
                    history_state(route@, body@),
                )
                &&& rooms::settings_views(r@) == rooms::scanned_settings(
                    history_state(route@, body@),
                )
            },
            None => final(tracker)@ == old(tracker)@ && r@.len() == 0,
        },
{
    let room = room_of_history(route);
    match (route, room) {
        (Route::Messages { .. }, Some(room)) => scan_history_state(tracker, room.as_str(), body),
        (Route::Context { .. }, Some(room)) => scan_history_state(tracker, room.as_str(), body),
        _ => {
            let none: Vec<RoomSettings> = Vec::new();
            assert(rooms::settings_views(none@) =~= Seq::empty());
            none
        },
    }
}

/// A history response in the form the client gets it. Where the room's ID is none, it
/// stays as it is.
pub open spec fn history_form(
    route: RouteView,
    body: JsonView,
    first: Seq<DecryptionView>,
    second: Seq<DecryptionView>,
    event: DecryptionView,
) -> JsonView {
    if history_room(route) is None {
        body
    } else {
        match route {
            RouteView::Messages { .. } => decrypt::messages_form(body, first),
            RouteView::Context { .. } => decrypt::context_form(body, first, second, event),
            RouteView::RoomEvent { .. } => decrypt::client_form(body, event),
            _ => body,
        }
    }
}

/// The client's response to a fetch of history, with its events decrypted.
pub fn handle_history_get(
    route: &Route,
    content_type: Option<Vec<u8>>,
    body: Json,
    outcomes: &HistoryOutcomes,
) -> (r: Result<Response, ProxyError>)
    ensures
        outcome(r) == rewritten_response(
            wire::opt_bytes(content_type),
            history_form(
                route@,
                body@,
                decrypt::decryptions(outcomes.first@),
                decrypt::decryptions(outcomes.second@),
                outcomes.event@,
            ),
        ),
{
    let mut body = body;
    if room_of_history(route).is_some() {
        match route {
            Route::Messages { .. } => process_messages_body(&mut body, &outcomes.first),
            Route::Context { .. } => process_context_body(
                &mut body,
                &outcomes.first,
                &outcomes.second,
                &outcomes.event,
            ),
            Route::RoomEvent { .. } => process_event_body(&mut body, &outcomes.event),
            _ => {},
        }
    }
    body_response(content_type, &body)
}

/// The response made of a rewritten body.
pub open spec fn rewritten_response(content_type: Option<Seq<u8>>, body: JsonView) -> Result<
    ResponseView,
    ProxyErrorView,
> {
    Ok(
        ResponseView {
            status: 200,
            headers: wire::content_type_headers(content_type),
            body: encode_utf8(json_text::json_text(body)),
        },
    )
}

/// The response made of a rewritten body.
pub fn body_response(content_type: Option<Vec<u8>>, body: &Json) -> (r: Result<
    Response,
    ProxyError,
>)
    ensures
        outcome(r) == rewritten_response(wire::opt_bytes(content_type), body@),
{
    raw_response(200, content_type, write_bytes(body))
}

} // verus!
