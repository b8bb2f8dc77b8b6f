//! Replies of the homeserver, on their way to the client.

use crate::crypto::decrypt::DecryptionView;
use crate::error::ProxyErrorView;
use crate::json::JsonView;
use crate::json_text;
use crate::laws::decrypt as shown;
use crate::laws::text as texts;
use crate::proxy;
use crate::proxy::intercept;
use crate::proxy::intercept::ForwardedView;
use crate::proxy::routes::RouteView;
use crate::proxy::SessionNeedView;
use crate::text;
use crate::wire::ResponseView;
use vstd::prelude::*;
use vstd::string::*;
use vstd::utf8::*;

verus! {

/// The only header of a response: its content type, where there is one.
pub open spec fn type_header(content_type: Option<Seq<u8>>) -> Seq<(Seq<char>, Seq<u8>)> {
    match content_type {
        Some(ct) => seq![("content-type"@, ct)],
        None => Seq::empty(),
    }
}

/// A reply that is handed on keeps its status, its type and its bytes. Only one whose status
/// is none is not.
pub proof fn replies_are_handed_on(status: u16, content_type: Option<Seq<u8>>, bytes: Seq<u8>)
    ensures
        100 <= status <= 999 ==> intercept::raw(status, content_type, bytes) == Ok::<
            ResponseView,
            ProxyErrorView,
        >(ResponseView { status, headers: type_header(content_type), body: bytes }),
        status < 100 || status > 999 ==> (intercept::raw(status, content_type, bytes) matches Err(
            ProxyErrorView::Internal(_),
        )),
{
}

/// A reply that is rewritten is the JSON of a successful one, with the type that it came
/// with; a refusal is handed on as it is.
pub proof fn replies_are_read(
    complaint: Seq<char>,
    status: u16,
    content_type: Option<Seq<u8>>,
    bytes: Seq<u8>,
)
    ensures
        200 <= status <= 299 ==> match json_text::parsed(bytes) {
            Ok(json) => intercept::read(complaint, status, content_type, bytes) == Ok::<
                ForwardedView,
                ProxyErrorView,
            >((ForwardedView::Body { content_type, body: json })),
            Err(e) => intercept::read(complaint, status, content_type, bytes) == Err::<
                ForwardedView,
                ProxyErrorView,
            >(ProxyErrorView::Internal(seq![complaint, e])),
        },
        (100 <= status < 200 || 300 <= status <= 999) ==> intercept::read(
            complaint,
            status,
            content_type,
            bytes,
        ) == Ok::<ForwardedView, ProxyErrorView>(
            ForwardedView::Refused(
                ResponseView { status, headers: type_header(content_type), body: bytes },
            ),
        ),
        status < 100 || status > 999 ==> intercept::read(complaint, status, content_type, bytes)
            is Err,
{
}

/// A rewritten body goes to the client as JSON, with the type that the reply came with.
pub proof fn rewritten_replies_are_json(content_type: Option<Seq<u8>>, body: JsonView)
    ensures
        intercept::rewritten_response(content_type, body) == Ok::<ResponseView, ProxyErrorView>(
            ResponseView {
                status: 200,
                headers: type_header(content_type),
                body: encode_utf8(json_text::json_text(body)),
            },
        ),
{
}

/// The list under a name; empty where there is none.
pub open spec fn list_in(body: JsonView, name: Seq<char>) -> Seq<JsonView> {
    match body.get(name) {
        Some(JsonView::Array(items)) => items,
        _ => Seq::empty(),
    }
}

/// What is handed to the crypto machine of a history response, and what is looked through
/// for room state: a page has its chunk, the surroundings of an event have what came before
/// and after it and the event, and both have state; a single event is the body itself.
pub proof fn history_is_taken_apart(room: Seq<char>, body: JsonView)
    ensures
        ({
            let page = RouteView::Messages { room_id: room };
            &&& intercept::first_events(page, body) == list_in(body, "chunk"@)
            &&& intercept::second_events(page, body).len() == 0
            &&& intercept::single_event(page, body) is None
            &&& intercept::history_state(page, body) == list_in(body, "state"@)
        }),
        ({
            let context = RouteView::Context { room_id: room };
            &&& intercept::first_events(context, body) == list_in(body, "events_before"@)
            &&& intercept::second_events(context, body) == list_in(body, "events_after"@)
            &&& intercept::single_event(context, body) == body.get("event"@)
            &&& intercept::history_state(context, body) == list_in(body, "state"@)
        }),
        ({
            let single = RouteView::RoomEvent { room_id: room };
            &&& intercept::first_events(single, body).len() == 0
            &&& intercept::second_events(single, body).len() == 0
            &&& intercept::single_event(single, body) == Some(body)
            &&& intercept::history_state(single, body).len() == 0
        }),
{
}

/// The room of a history response is the one that its path names, where that is the ID of a
/// room.
pub proof fn history_has_a_room(room: Seq<char>)
    ensures
        ({
            let is_id = room.len() > 0 && room[0] == '!' && !room.contains('\0');
            let found = if is_id {
                Some(room)
            } else {
                None
            };
            &&& intercept::history_room((RouteView::Messages { room_id: room })) == found
            &&& intercept::history_room((RouteView::Context { room_id: room })) == found
            &&& intercept::history_room((RouteView::RoomEvent { room_id: room })) == found
        }),
{
}

/// In a history response each event is shown by its own decryption, those of the first list
/// by the first outcomes, those of the second by the second, and the event itself by its
/// own; all else is kept. Where the path names no room, everything is.
pub proof fn history_is_shown(
    room: Seq<char>,
    body: JsonView,
    first: Seq<DecryptionView>,
    second: Seq<DecryptionView>,
    event: DecryptionView,
    key: Seq<char>,
)
    ensures
        ({
            let is_id = room.len() > 0 && room[0] == '!' && !room.contains('\0');
            let page = intercept::history_form(
                RouteView::Messages { room_id: room },
                body,
                first,
                second,
                event,
            );
            let context = intercept::history_form(
                RouteView::Context { room_id: room },
                body,
                first,
                second,
                event,
            );
            let single = intercept::history_form(
                RouteView::RoomEvent { room_id: room },
                body,
                first,
                second,
                event,
            );
            &&& !is_id ==> page == body && context == body && single == body
            &&& is_id ==> {
                &&& key != "chunk"@ ==> page.get(key) == body.get(key)
                &&& shown::shows_each(list_in(page, "chunk"@), list_in(body, "chunk"@), first)
                &&& key != "events_before"@ && key != "events_after"@ && key != "event"@
                    ==> context.get(key) == body.get(key)
                &&& shown::shows_each(
                    list_in(context, "events_before"@),
                    list_in(body, "events_before"@),
                    first,
                )
                &&& shown::shows_each(
                    list_in(context, "events_after"@),
                    list_in(body, "events_after"@),
                    second,
                )
                &&& match body.get("event"@) {
                    Some(e) => context.get("event"@) matches Some(s) && shown::stands_for(
                        s,
                        e,
                        Some(event),
                    ),
                    None => context.get("event"@) is None,
                }
                &&& shown::stands_for(single, body, Some(event))
            }
        }),
{
    shown::missing_lists_are_kept(body, first, second, event);
    match body.get("chunk"@) {
        Some(JsonView::Array(events)) => {
            shown::messages_are_shown(body, events, first, key);
        },
        _ => {},
    }
    shown::event_is_shown(body, event);
}

/// A request carries the token of its authorization header, behind `Bearer `, and otherwise
/// the one of its query, which may stand behind other parameters.
pub proof fn requests_carry_their_token(
    token: Seq<char>,
    header: Seq<u8>,
    query: Option<Seq<char>>,
    other: Seq<char>,
)
    requires
        header.len() == "Bearer "@.len() + token.len(),
        forall|i: int|
            0 <= i < header.len() ==> (32 <= #[trigger] header[i] < 127 || header[i] == 9)
                && header[i] as char == ("Bearer "@ + token)[i],
    ensures
        proxy::request_token(Some(header), query) == Some(token),
        proxy::request_token(None, None) is None,
        !token.contains('&') ==> proxy::request_token(None, Some("access_token="@ + token)) == Some(
            token,
        ),
        !token.contains('&') && !other.contains('&') && !"access_token="@.is_prefix_of(other)
            ==> proxy::request_token(
            None,
            Some(other + seq!['&'] + ("access_token="@ + token)),
        ) == Some(token) && proxy::request_token(None, Some(other)) is None,
{
    let value = crate::wire::header_string(header);
    assert(value->0 =~= "Bearer "@ + token);
    texts::prefix_is_stripped("Bearer "@ + token, "Bearer "@, token);
    let named = "access_token="@ + token;
    texts::prefix_is_stripped(named, "access_token="@, token);
    if !token.contains('&') {
        reveal_strlit("access_token=");
        assert(!named.contains('&')) by {
            if named.contains('&') {
                let i = choose|i: int| 0 <= i < named.len() && named[i] == '&';
                if i < "access_token="@.len() {
                    assert("access_token="@.contains(named[i]));
                } else {
                    assert(token[i - "access_token="@.len()] == '&');
                }
            }
        }
        text::lemma_split_one(named, '&');
        assert(seq![named].skip(1) =~= Seq::empty());
        assert(text::first_behind(seq![named], "access_token="@) == Some(token));
        if !other.contains('&') && !"access_token="@.is_prefix_of(other) {
            text::lemma_split_one(other, '&');
            text::lemma_split_join(other, named, '&');
            texts::prefix_is_stripped(other, "access_token="@, Seq::empty());
            let both = seq![other, named];
            assert(seq![other] + seq![named] =~= both);
            assert(both.skip(1) =~= seq![named]);
            assert(seq![other].skip(1) =~= Seq::empty());
            assert(text::first_behind(seq![other], "access_token="@) == text::first_behind(
                seq![other].skip(1),
                "access_token="@,
            ));
            assert(text::first_behind(both, "access_token="@) == text::first_behind(
                both.skip(1),
                "access_token="@,
            ));
            assert(text::split(other + seq!['&'] + named, '&') == both);
        }
    }
}

/// Logins, the proxy's own API and what passes through need no session. A download by the
/// legacy path, which carries no token, is lent that of any session. All else is handled
/// with the session of its own token, and none other.
pub proof fn sessions_are_needed(route: RouteView, token: Option<Seq<char>>)
    ensures
        ({
            let need = proxy::need_of(route, token);
            let free = route is Admin || route is Login || route is Passthrough;
            let legacy = route matches RouteView::MediaDownload { authenticated, .. }
                && !authenticated;
            &&& free <==> need is Nothing
            &&& legacy <==> need is AnyActive
            &&& !free && !legacy ==> need == match token {
                Some(t) => SessionNeedView::OfToken(t),
                None => SessionNeedView::Missing,
            }
        }),
{
}

/// With a session a route stays what it is; without one, what needs a session passes through.
pub proof fn routes_without_session(route: RouteView)
    ensures
        proxy::effective_route(route, true) == route,
        proxy::effective_route(route, false) == if route is Admin || route is Login {
            route
        } else {
            RouteView::Passthrough
        },
{
}

/// A session is dropped where the homeserver says that its token is not valid, and only
/// there.
pub proof fn invalid_tokens_are_dropped(status: u16)
    ensures
        proxy::evicts(status) <==> status == 401,
{
}

} // verus!
