//! Which requests the proxy handles itself.

use crate::crypto::machine;
use crate::crypto::media;
use crate::percent;
use crate::percent::dec;
use crate::text;
use crate::text::{same_text, split_text, strip_prefix, trim_start};
use vstd::prelude::*;

verus! {

/// What a request asks for, by its path. The version segment of the path (r0, v1,
/// v3 and so on) plays no part, as clients mix versions.
#[derive(Debug, Clone, PartialEq, Eq)]
pub enum Route {
    Login,
    Sync,
    Send { room_id: String, event_type: String, txn_id: String },
    Messages { room_id: String },
    Context { room_id: String },
    RoomEvent { room_id: String },
    MediaUpload,
    MediaDownload {
        server: String,
        media_id: String,
        /// Whether the request came by the authenticated download path. The legacy
        /// path carries no token.
        authenticated: bool,
    },
    Admin(String),
    Passthrough,
}

/// What a route says.
pub enum RouteView {
    Login,
    Sync,
    Send { room_id: Seq<char>, event_type: Seq<char>, txn_id: Seq<char> },
    Messages { room_id: Seq<char> },
    Context { room_id: Seq<char> },
    RoomEvent { room_id: Seq<char> },
    MediaUpload,
    MediaDownload { server: Seq<char>, media_id: Seq<char>, authenticated: bool },
    Admin(Seq<char>),
    Passthrough,
}

impl Route {
    pub open spec fn view(&self) -> RouteView {
        match self {
            Route::Login => RouteView::Login,
            Route::Sync => RouteView::Sync,
            Route::Send { room_id, event_type, txn_id } => RouteView::Send {
                room_id: room_id@,
                event_type: event_type@,
                txn_id: txn_id@,
            },
            Route::Messages { room_id } => RouteView::Messages { room_id: room_id@ },
            Route::Context { room_id } => RouteView::Context { room_id: room_id@ },
            Route::RoomEvent { room_id } => RouteView::RoomEvent { room_id: room_id@ },
            Route::MediaUpload => RouteView::MediaUpload,
            Route::MediaDownload { server, media_id, authenticated } => RouteView::MediaDownload {
                server: server@,
                media_id: media_id@,
                authenticated: *authenticated,
            },
            Route::Admin(sub) => RouteView::Admin(sub@),
            Route::Passthrough => RouteView::Passthrough,
        }
    }
}

/// The segments of a path.
pub open spec fn segments(path: Seq<char>) -> Seq<Seq<char>> {
    text::split(text::trimmed_start(path, '/'), '/')
}

/// The route of a Matrix request with the given segments.
pub open spec fn matrix_route(method: Seq<char>, s: Seq<Seq<char>>) -> RouteView {
    let client = s.len() >= 4 && s[0] == "_matrix"@ && s[1] == "client"@;
    let media = s.len() >= 4 && s[0] == "_matrix"@ && s[1] == "media"@;
    let room = client && s.len() >= 6 && s[3] == "rooms"@;
    if client && s.len() == 4 && s[3] == "login"@ && method == "POST"@ {
        RouteView::Login
    } else if client && s.len() == 4 && s[3] == "sync"@ && method == "GET"@ {
        RouteView::Sync
    } else if room && s.len() == 8 && s[5] == "send"@ && method == "PUT"@ {
        RouteView::Send {
            room_id: percent::decoded_text(s[4]),
            event_type: percent::decoded_text(s[6]),
            txn_id: percent::decoded_text(s[7]),
        }
    } else if room && s.len() == 6 && s[5] == "messages"@ && method == "GET"@ {
        RouteView::Messages { room_id: percent::decoded_text(s[4]) }
    } else if room && s.len() == 7 && s[5] == "context"@ && method == "GET"@ {
        RouteView::Context { room_id: percent::decoded_text(s[4]) }
    } else if room && s.len() == 7 && s[5] == "event"@ && method == "GET"@ {
        RouteView::RoomEvent { room_id: percent::decoded_text(s[4]) }
    } else if media && s.len() == 4 && s[3] == "upload"@ && method == "POST"@ {
        RouteView::MediaUpload
    } else if client && s.len() >= 7 && s[3] == "media"@ && s[4] == "download"@ && method
        == "GET"@ {
        RouteView::MediaDownload {
            server: percent::decoded_text(s[5]),
            media_id: percent::decoded_text(s[6]),
            authenticated: true,
        }
    } else if media && s.len() >= 6 && s[3] == "download"@ && method == "GET"@ {
        RouteView::MediaDownload {
            server: percent::decoded_text(s[4]),
            media_id: percent::decoded_text(s[5]),
            authenticated: false,
        }
    } else {
        RouteView::Passthrough
    }
}

/// The route of a request. Paths below `/_ement` belong to the proxy's own API,
/// whatever the method.
pub open spec fn route_of(method: Seq<char>, path: Seq<char>) -> RouteView {
    match text::behind(path, "/_ement/"@) {
        Some(rest) => RouteView::Admin(rest),
        None => if path == "/_ement"@ {
            RouteView::Admin(Seq::empty())
        } else {
            matrix_route(method, segments(path))
        },
    }
}

fn is_at(s: &Vec<String>, i: usize, word: &str) -> (r: bool)
    ensures
        r == (i < s@.len() && text::texts(s@)[i as int] == word@),
{
    i < s.len() && same_text(s[i].as_str(), word)
}

/// Whether a request logs the client out, here or everywhere.
pub open spec fn logs_out(method: Seq<char>, path: Seq<char>) -> bool {
    let s = segments(path);
    &&& method == "POST"@
    &&& s.len() == 4 || (s.len() == 5 && s[4] == "all"@)
    &&& s[0] == "_matrix"@
    &&& s[1] == "client"@
    &&& s[3] == "logout"@
}

/// Whether a request logs the client out, here or everywhere.
pub fn is_logout(method: &str, path: &str) -> (r: bool)
    ensures
        r == logs_out(method@, path@),
{
    let trimmed = trim_start(path, '/');
    let s = split_text(trimmed.as_str(), '/');
    assert(text::texts(s@) == segments(path@));
    assert(text::texts(s@).len() == s@.len());
    same_text(method, "POST") && (s.len() == 4 || (s.len() == 5 && is_at(&s, 4, "all"))) && is_at(
        &s,
        0,
        "_matrix",
    ) && is_at(&s, 1, "client") && is_at(&s, 3, "logout")
}

/// Classifies a request by its method and path.
pub fn classify(method: &str, path: &str) -> (r: Route)
    ensures
        r@ == route_of(method@, path@),
{
    match strip_prefix(path, "/_ement/") {
        Some(rest) => {
            return Route::Admin(rest);
        },
        None => {},
    }
    if same_text(path, "/_ement") {
        let none = String::new();
        assert(none@ =~= Seq::empty());
        return Route::Admin(none);
    }
    let trimmed = trim_start(path, '/');
    let s = split_text(trimmed.as_str(), '/');
    let n: usize = s.len();
    assert(text::texts(s@) == segments(path@));
    assert(text::texts(s@).len() == n);
    let get = same_text(method, "GET");
    let post = same_text(method, "POST");
    let put = same_text(method, "PUT");
    let matrix = n >= 4 && is_at(&s, 0, "_matrix");
    let client = matrix && is_at(&s, 1, "client");
    let media = matrix && is_at(&s, 1, "media");
    let room = client && n >= 6 && is_at(&s, 3, "rooms");
    if client && n == 4 && is_at(&s, 3, "login") && post {
        Route::Login
    } else if client && n == 4 && is_at(&s, 3, "sync") && get {
        Route::Sync
    } else if room && n == 8 && is_at(&s, 5, "send") && put {
        Route::Send {
            room_id: dec(s[4].as_str()),
            event_type: dec(s[6].as_str()),
            txn_id: dec(s[7].as_str()),
        }
    } else if room && n == 6 && is_at(&s, 5, "messages") && get {
        Route::Messages { room_id: dec(s[4].as_str()) }
    } else if room && n == 7 && is_at(&s, 5, "context") && get {
        Route::Context { room_id: dec(s[4].as_str()) }
    } else if room && n == 7 && is_at(&s, 5, "event") && get {
        Route::RoomEvent { room_id: dec(s[4].as_str()) }
    } else if media && n == 4 && is_at(&s, 3, "upload") && post {
        Route::MediaUpload
    } else if client && n >= 7 && is_at(&s, 3, "media") && is_at(&s, 4, "download") && get {
        Route::MediaDownload {
            server: dec(s[5].as_str()),
            media_id: dec(s[6].as_str()),
            authenticated: true,
        }
    } else if media && n >= 6 && is_at(&s, 3, "download") && get {
        Route::MediaDownload {
            server: dec(s[4].as_str()),
            media_id: dec(s[5].as_str()),
            authenticated: false,
        }
    } else {
        Route::Passthrough
    }
}

/// The path of a Matrix endpoint: the API, the version, and what comes behind it.
pub open spec fn endpoint(api: Seq<char>, version: Seq<char>, rest: Seq<char>) -> Seq<char> {
    "/_matrix/"@ + api + "/"@ + version + "/"@ + rest
}

proof fn lemma_endpoint(method: Seq<char>, api: Seq<char>, version: Seq<char>, rest: Seq<char>)
    requires
        !api.contains('/'),
        !version.contains('/'),
    ensures
        segments(endpoint(api, version, rest)) == seq!["_matrix"@, api, version] + text::split(
            rest,
            '/',
        ),
        route_of(method, endpoint(api, version, rest)) == matrix_route(
            method,
            segments(endpoint(api, version, rest)),
        ),
{
    reveal_strlit("/_matrix/");
    reveal_strlit("_matrix");
    reveal_strlit("/_ement/");
    reveal_strlit("/_ement");
    reveal_strlit("/");
    let path = endpoint(api, version, rest);
    let tail = api + seq!['/'] + (version + seq!['/'] + rest);
    assert("/_matrix/"@ =~= seq!['/'] + "_matrix"@ + seq!['/']);
    assert("/"@ =~= seq!['/']);
    assert(path =~= seq!['/'] + ("_matrix"@ + seq!['/'] + tail));
    assert(path[0] == '/' && path[1] == '_' && path[2] == 'm');
    assert("/_ement/"@[2] == 'e' && "/_ement"@[2] == 'e');
    assert(!"/_ement/"@.is_prefix_of(path));
    assert(path.skip(1) =~= "_matrix"@ + seq!['/'] + tail);
    assert(text::trimmed_start(path, '/') == path.skip(1)) by {
        assert(path.skip(1)[0] == '_');
        assert(text::trimmed_start(path.skip(1), '/') == path.skip(1));
    }
    assert(!"_matrix"@.contains('/'));
    text::lemma_split_join("_matrix"@, tail, '/');
    text::lemma_split_join(api, version + seq!['/'] + rest, '/');
    text::lemma_split_join(version, rest, '/');
    assert(segments(path) =~= seq!["_matrix"@, api, version] + text::split(rest, '/'));
}

/// The version segment of a path plays no part in its route.
pub proof fn route_ignores_version(
    method: Seq<char>,
    api: Seq<char>,
    v: Seq<char>,
    w: Seq<char>,
    rest: Seq<char>,
)
    requires
        !api.contains('/'),
        !v.contains('/'),
        !w.contains('/'),
    ensures
        route_of(method, endpoint(api, v, rest)) == route_of(method, endpoint(api, w, rest)),
{
    lemma_endpoint(method, api, v, rest);
    lemma_endpoint(method, api, w, rest);
    let s = segments(endpoint(api, v, rest));
    assert(segments(endpoint(api, w, rest)) =~= s.update(2, w));
}

/// An encoded text is a single segment of a path.
proof fn lemma_encoded_segment(s: Seq<char>)
    ensures
        !percent::encoded_text(s).contains('/'),
{
    percent::enc_is_one_segment(s);
}

/// The path that a message is sent to is read back as what it was made of, whatever
/// characters the room, the type and the transaction hold.
pub proof fn sent_message_is_recognized(
    room: Seq<char>,
    event_type: Seq<char>,
    txn_id: Seq<char>,
)
    ensures
        route_of("PUT"@, machine::send_url(room, event_type, txn_id)) == (RouteView::Send {
            room_id: room,
            event_type,
            txn_id,
        }),
{
    let r = percent::encoded_text(room);
    let e = percent::encoded_text(event_type);
    let x = percent::encoded_text(txn_id);
    reveal_strlit("/_matrix/client/v3/rooms/");
    reveal_strlit("/_matrix/");
    reveal_strlit("client");
    reveal_strlit("v3");
    reveal_strlit("rooms");
    reveal_strlit("/send/");
    reveal_strlit("send");
    reveal_strlit("/");
    reveal_strlit("PUT");
    reveal_strlit("POST");
    reveal_strlit("GET");
    let rest = "rooms"@ + seq!['/'] + (r + seq!['/'] + ("send"@ + seq!['/'] + (e + seq!['/'] + x)));
    assert("/"@ =~= seq!['/']);
    assert("/send/"@ =~= seq!['/'] + "send"@ + seq!['/']);
    assert("/_matrix/client/v3/rooms/"@ =~= "/_matrix/"@ + "client"@ + seq!['/'] + "v3"@ + seq!['/']
        + "rooms"@ + seq!['/']);
    assert(machine::send_url(room, event_type, txn_id) =~= endpoint("client"@, "v3"@, rest));
    lemma_endpoint("PUT"@, "client"@, "v3"@, rest);
    lemma_encoded_segment(room);
    lemma_encoded_segment(event_type);
    lemma_encoded_segment(txn_id);
    text::lemma_split_join("rooms"@, r + seq!['/'] + ("send"@ + seq!['/'] + (e + seq!['/'] + x)), '/');
    text::lemma_split_join(r, "send"@ + seq!['/'] + (e + seq!['/'] + x), '/');
    text::lemma_split_join("send"@, e + seq!['/'] + x, '/');
    text::lemma_split_join(e, x, '/');
    text::lemma_split_one(x, '/');
    let s = segments(endpoint("client"@, "v3"@, rest));
    assert(s =~= seq!["_matrix"@, "client"@, "v3"@, "rooms"@, r, "send"@, e, x]);
    percent::dec_of_enc(room);
    percent::dec_of_enc(event_type);
    percent::dec_of_enc(txn_id);
}

/// The path that an attachment is downloaded from is read back as that attachment.
pub proof fn download_is_recognized(server: Seq<char>, media_id: Seq<char>)
    ensures
        route_of("GET"@, media::download_url(server, media_id)) == (RouteView::MediaDownload {
            server,
            media_id,
            authenticated: true,
        }),
{
    let a = percent::encoded_text(server);
    let b = percent::encoded_text(media_id);
    reveal_strlit("/_matrix/client/v1/media/download/");
    reveal_strlit("/_matrix/");
    reveal_strlit("client");
    reveal_strlit("v1");
    reveal_strlit("media");
    reveal_strlit("download");
    reveal_strlit("rooms");
    reveal_strlit("/");
    reveal_strlit("PUT");
    reveal_strlit("POST");
    reveal_strlit("GET");
    let rest = "media"@ + seq!['/'] + ("download"@ + seq!['/'] + (a + seq!['/'] + b));
    assert("/"@ =~= seq!['/']);
    assert("/_matrix/client/v1/media/download/"@ =~= "/_matrix/"@ + "client"@ + seq!['/'] + "v1"@
        + seq!['/'] + "media"@ + seq!['/'] + "download"@ + seq!['/']);
    assert(media::download_url(server, media_id) =~= endpoint("client"@, "v1"@, rest));
    lemma_endpoint("GET"@, "client"@, "v1"@, rest);
    lemma_encoded_segment(server);
    lemma_encoded_segment(media_id);
    text::lemma_split_join("media"@, "download"@ + seq!['/'] + (a + seq!['/'] + b), '/');
    text::lemma_split_join("download"@, a + seq!['/'] + b, '/');
    text::lemma_split_join(a, b, '/');
    text::lemma_split_one(b, '/');
    let s = segments(endpoint("client"@, "v1"@, rest));
    assert(s =~= seq!["_matrix"@, "client"@, "v1"@, "media"@, "download"@, a, b]);
    assert("media"@[0] == 'm' && "rooms"@[0] == 'r');
    percent::dec_of_enc(server);
    percent::dec_of_enc(media_id);
}

/// A client of any version of the API logs out by the path `logout`, or `logout/all`.
pub proof fn logout_is_recognized(version: Seq<char>)
    requires
        !version.contains('/'),
    ensures
        logs_out("POST"@, endpoint("client"@, version, "logout"@)),
        logs_out("POST"@, endpoint("client"@, version, "logout/all"@)),
{
    reveal_strlit("client");
    reveal_strlit("logout");
    reveal_strlit("logout/all");
    reveal_strlit("all");
    assert("logout/all"@ =~= "logout"@ + seq!['/'] + "all"@);
    lemma_endpoint("POST"@, "client"@, version, "logout"@);
    lemma_endpoint("POST"@, "client"@, version, "logout/all"@);
    text::lemma_split_one("logout"@, '/');
    text::lemma_split_join("logout"@, "all"@, '/');
    text::lemma_split_one("all"@, '/');
    assert(segments(endpoint("client"@, version, "logout"@)) =~= seq![
        "_matrix"@,
        "client"@,
        version,
        "logout"@,
    ]);
    assert(segments(endpoint("client"@, version, "logout/all"@)) =~= seq![
        "_matrix"@,
        "client"@,
        version,
        "logout"@,
        "all"@,
    ]);
}

} // verus!
