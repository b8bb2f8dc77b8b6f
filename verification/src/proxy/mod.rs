//! The proxy's handling of client requests.

pub mod intercept;
pub mod login;
pub mod passthrough;
pub mod routes;

use crate::proxy::routes::{is_logout, Route, RouteView};
use crate::session::{Session, SessionManager};
use crate::text;
use crate::text::{find_prefixed, split_text, strip_prefix};
use crate::wire;
use crate::wire::{header_text, is_success};
use vstd::prelude::*;

verus! {

/// The token that an authorization header carries.
pub open spec fn header_token(authorization: Option<Seq<u8>>) -> Option<Seq<char>> {
    match authorization {
        Some(bytes) => match wire::header_string(bytes) {
            Some(value) => text::behind(value, "Bearer "@),
            None => None,
        },
        None => None,
    }
}

/// The value of the first parameter of a query that starts with `prefix`.
pub open spec fn query_value(query: Option<Seq<char>>, prefix: Seq<char>) -> Option<Seq<char>> {
    match query {
        Some(q) => text::first_behind(text::split(q, '&'), prefix),
        None => None,
    }
}

/// The access token of a request.
pub open spec fn request_token(
    authorization: Option<Seq<u8>>,
    query: Option<Seq<char>>,
) -> Option<Seq<char>> {
    match header_token(authorization) {
        Some(token) => Some(token),
        None => query_value(query, "access_token="@),
    }
}

/// The view of optional borrowed bytes.
pub open spec fn opt_slice(b: Option<&[u8]>) -> Option<Seq<u8>> {
    match b {
        Some(v) => Some(v@),
        None => None,
    }
}

/// The token that an authorization header carries.
pub fn token_in_header(authorization: Option<&[u8]>) -> (r: Option<String>)
    ensures
        text::opt_text(r) == header_token(opt_slice(authorization)),
{
    match authorization {
        Some(bytes) => match header_text(bytes) {
            Some(value) => strip_prefix(value.as_str(), "Bearer "),
            None => None,
        },
        None => None,
    }
}

/// The value of the first parameter of a query that starts with `prefix`.
pub fn value_in_query(query: Option<&str>, prefix: &str) -> (r: Option<String>)
    ensures
        text::opt_text(r) == query_value(text::opt_str(query), prefix@),
{
    match query {
        Some(q) => {
            let pieces = split_text(q, '&');
            find_prefixed(&pieces, prefix)
        },
        None => None,
    }
}

/// The client's access token: from the authorization header or, as older clients
/// send it, from the `access_token` query parameter.
pub fn bearer_token(authorization: Option<&[u8]>, query: Option<&str>) -> (r: Option<String>)
    ensures
        text::opt_text(r) == request_token(opt_slice(authorization), text::opt_str(query)),
{
    match token_in_header(authorization) {
        Some(token) => Some(token),
        None => value_in_query(query, "access_token="),
    }
}

/// The session that a request is handled with.
pub enum SessionNeed {
    /// None is needed.
    Nothing,
    /// That of the given token.
    OfToken(String),
    /// Any active one: the request carries no token of its own.
    AnyActive,
    /// One is needed, but the request names none.
    Missing,
}

/// Which session a route is handled with, by what is needed of it.
pub open spec fn need_of(route: RouteView, token: Option<Seq<char>>) -> SessionNeedView {
    match route {
        RouteView::Admin(_) | RouteView::Login | RouteView::Passthrough => SessionNeedView::Nothing,
        RouteView::MediaDownload { authenticated: false, .. } => SessionNeedView::AnyActive,
        _ => match token {
            Some(t) => SessionNeedView::OfToken(t),
            None => SessionNeedView::Missing,
        },
    }
}

/// What a need says.
pub enum SessionNeedView {
    Nothing,
    OfToken(Seq<char>),
    AnyActive,
    Missing,
}

impl SessionNeed {
    pub open spec fn view(&self) -> SessionNeedView {
        match self {
            SessionNeed::Nothing => SessionNeedView::Nothing,
            SessionNeed::OfToken(t) => SessionNeedView::OfToken(t@),
            SessionNeed::AnyActive => SessionNeedView::AnyActive,
            SessionNeed::Missing => SessionNeedView::Missing,
        }
    }
}

/// Which session a request is handled with. The legacy download path, which
/// clients use for avatars, carries no token: any active session lends its own.
pub fn session_need(route: &Route, token: Option<String>) -> (r: SessionNeed)
    ensures
        r@ == need_of(route@, text::opt_text(token)),
{
    match route {
        Route::Admin(_) => SessionNeed::Nothing,
        Route::Login => SessionNeed::Nothing,
        Route::Passthrough => SessionNeed::Nothing,
        Route::MediaDownload { authenticated: false, .. } => SessionNeed::AnyActive,
        _ => match token {
            Some(t) => SessionNeed::OfToken(t),
            None => SessionNeed::Missing,
        },
    }
}

/// The route that is taken once it is known whether there is a session: what needs
/// a session and has none passes through.
pub open spec fn effective_route(route: RouteView, has_session: bool) -> RouteView {
    match route {
        RouteView::Admin(_) | RouteView::Login | RouteView::Passthrough => route,
        _ => if has_session {
            route
        } else {
            RouteView::Passthrough
        },
    }
}

/// The route that is taken once it is known whether there is a session.
pub fn route_with_session(route: Route, has_session: bool) -> (r: Route)
    ensures
        r@ == effective_route(route@, has_session),
{
    match route {
        Route::Admin(sub) => Route::Admin(sub),
        Route::Login => Route::Login,
        other => if has_session {
            other
        } else {
            Route::Passthrough
        },
    }
}

/// Without a session nothing but logins and the proxy's own API is intercepted.
pub proof fn no_session_passes_through(route: RouteView)
    requires
        !(route is Admin),
        !(route is Login),
    ensures
        effective_route(route, false) == RouteView::Passthrough,
{
}

/// Whether a reply to a request made with a session's token shows that the token
/// is no longer valid, so that the session is dropped.
pub open spec fn evicts(status: u16) -> bool {
    status == 401
}

/// Whether a session is dropped on a reply with the given status.
pub fn session_evicted(status: u16) -> (r: bool)
    ensures
        r == evicts(status),
{
    status == 401
}

/// The sessions once a request was relayed, by its method and path, the token that it
/// carried, and the status of the reply.
pub open spec fn sessions_after<C>(
    sessions: Map<Seq<char>, Session<C>>,
    method: Seq<char>,
    path: Seq<char>,
    token: Option<Seq<char>>,
    status: u16,
) -> Map<Seq<char>, Session<C>> {
    match token {
        Some(t) => if routes::logs_out(method, path) && wire::success(status) {
            sessions.remove(t)
        } else {
            sessions
        },
        None => sessions,
    }
}

/// Takes note of the reply to a request that passed through. A logout that succeeded
/// makes the token invalid, so its session is dropped. Other refusals say nothing of the
/// token: the homeserver also asks for a password with status 401.
pub fn request_relayed<C>(
    sessions: &mut SessionManager<C>,
    method: &str,
    path: &str,
    token: Option<&str>,
    status: u16,
)
    ensures
        final(sessions)@ == sessions_after(
            old(sessions)@,
            method@,
            path@,
            text::opt_str(token),
            status,
        ),
{
    match token {
        Some(t) => if is_logout(method, path) && is_success(status) {
            sessions.remove(t);
        },
        None => {},
    }
}

/// A logout that succeeds evicts the session of its token, and no other; one that is
/// refused evicts none.
pub proof fn logout_evicts<C>(
    sessions: Map<Seq<char>, Session<C>>,
    version: Seq<char>,
    token: Seq<char>,
    other: Seq<char>,
    status: u16,
)
    requires
        !version.contains('/'),
        other != token,
    ensures
        ({
            let here = sessions_after(
                sessions,
                "POST"@,
                routes::endpoint("client"@, version, "logout"@),
                Some(token),
                status,
            );
            let everywhere = sessions_after(
                sessions,
                "POST"@,
                routes::endpoint("client"@, version, "logout/all"@),
                Some(token),
                status,
            );
            &&& here == everywhere
            &&& wire::success(status) ==> !here.contains_key(token)
            &&& !wire::success(status) ==> here == sessions
            &&& here.contains_key(other) == sessions.contains_key(other)
            &&& here[other] == sessions[other]
        }),
{
    routes::logout_is_recognized(version);
}

} // verus!
