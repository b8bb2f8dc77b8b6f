//! Which requests are intercepted, and what they are read as.

use crate::laws::text as texts;
use crate::percent;
use crate::proxy;
use crate::proxy::routes;
use crate::proxy::routes::RouteView;
use crate::session::Session;
use crate::text;
use vstd::prelude::*;
use vstd::string::*;

verus! {

/// The path that some segments make: each behind a slash.
pub open spec fn path_of(s: Seq<Seq<char>>) -> Seq<char>
    decreases s.len(),
{
    if s.len() == 0 {
        Seq::empty()
    } else {
        path_of(s.drop_last()) + seq!['/'] + s.last()
    }
}

/// Whether texts can be the segments of a path: none holds a slash, and the first is not
/// empty.
pub open spec fn can_be_segments(s: Seq<Seq<char>>) -> bool {
    &&& s.len() > 0
    &&& s[0].len() > 0
    &&& forall|i: int| 0 <= i < s.len() ==> !(#[trigger] s[i]).contains('/')
}

proof fn lemma_path_joined(s: Seq<Seq<char>>)
    requires
        s.len() > 0,
    ensures
        path_of(s) == seq!['/'] + text::joined(s, seq!['/']),
    decreases s.len(),
{
    if s.len() == 1 {
        assert(path_of(s.drop_last()) =~= Seq::empty());
        assert(path_of(s) =~= seq!['/'] + text::joined(s, seq!['/']));
    } else {
        lemma_path_joined(s.drop_last());
        assert(path_of(s) =~= seq!['/'] + text::joined(s, seq!['/']));
    }
}

proof fn lemma_joined_start(s: Seq<Seq<char>>)
    requires
        s.len() > 0,
    ensures
        s[0].is_prefix_of(text::joined(s, seq!['/'])),
    decreases s.len(),
{
    if s.len() > 1 {
        lemma_joined_start(s.drop_last());
        let front = text::joined(s.drop_last(), seq!['/']);
        assert(front.is_prefix_of(text::joined(s, seq!['/'])));
    }
}

/// A path is read as the segments that it is made of.
pub proof fn path_is_read_by_segments(s: Seq<Seq<char>>)
    requires
        can_be_segments(s),
    ensures
        routes::segments(path_of(s)) == s,
{
    lemma_path_joined(s);
    lemma_joined_start(s);
    let rest = text::joined(s, seq!['/']);
    let path = path_of(s);
    assert(rest[0] == s[0][0]);
    assert(s[0][0] != '/') by {
        assert(!s[0].contains('/'));
        if s[0][0] == '/' {
            assert(s[0].contains(s[0][0]));
        }
    }
    assert(path.skip(1) =~= rest);
    assert(path[0] == '/');
    assert(text::trimmed_start(rest, '/') == rest);
    assert(text::trimmed_start(path, '/') == text::trimmed_start(path.skip(1), '/'));
    texts::joined_pieces_come_back(s, '/');
}

/// Whether segments are those of a client endpoint, of any version, with the given length.
pub open spec fn client(s: Seq<Seq<char>>, n: int) -> bool {
    s.len() == n && n >= 4 && s[0] == "_matrix"@ && s[1] == "client"@
}

/// Whether segments are those of a media endpoint, of any version.
pub open spec fn media(s: Seq<Seq<char>>) -> bool {
    s.len() >= 4 && s[0] == "_matrix"@ && s[1] == "media"@
}

proof fn lemma_words()
    ensures
        "login"@ != "sync"@,
        "client"@ != "media"@,
        "rooms"@ != "media"@,
        "send"@ != "messages"@,
        "context"@ != "event"@,
        "upload"@ != "download"@,
        "GET"@ != "POST"@,
        "GET"@ != "PUT"@,
        "POST"@ != "PUT"@,
        "_matrix"@ != "_ement"@,
{
    reveal_strlit("login");
    reveal_strlit("sync");
    reveal_strlit("client");
    reveal_strlit("media");
    reveal_strlit("rooms");
    reveal_strlit("send");
    reveal_strlit("messages");
    reveal_strlit("context");
    reveal_strlit("event");
    reveal_strlit("upload");
    reveal_strlit("download");
    reveal_strlit("GET");
    reveal_strlit("POST");
    reveal_strlit("PUT");
    reveal_strlit("_matrix");
    reveal_strlit("_ement");
    assert("rooms"@[0] == 'r' && "media"@[0] == 'm');
    assert("GET"@[0] == 'G' && "PUT"@[0] == 'P');
    assert("login"@.len() == 5 && "sync"@.len() == 4);
    assert("client"@.len() == 6 && "media"@.len() == 5);
    assert("send"@.len() == 4 && "messages"@.len() == 8);
    assert("context"@.len() == 7 && "event"@.len() == 5);
    assert("upload"@.len() == 6 && "download"@.len() == 8);
    assert("GET"@.len() == 3 && "POST"@.len() == 4 && "PUT"@.len() == 3);
    assert("_matrix"@.len() == 7 && "_ement"@.len() == 6);
}

/// A path of other segments than the proxy's own is no path of its API.
proof fn lemma_not_admin(s: Seq<Seq<char>>)
    requires
        can_be_segments(s),
        s[0] != "_ement"@,
    ensures
        text::behind(path_of(s), "/_ement/"@) is None,
        path_of(s) != "/_ement"@,
{
    path_is_read_by_segments(s);
    reveal_strlit("/_ement/");
    reveal_strlit("/_ement");
    reveal_strlit("_ement");
    assert("_ement"@[0] == '_');
    assert(!"_ement"@.contains('/'));
    let own = seq!["_ement"@];
    assert(path_of(own.drop_last()) =~= Seq::empty());
    assert("/_ement"@ =~= path_of(own));
    assert(can_be_segments(own));
    path_is_read_by_segments(own);
    if path_of(s) == "/_ement"@ {
        assert(s =~= own);
        assert(s[0] == own[0]);
    }
    texts::prefix_is_stripped(path_of(s), "/_ement/"@, Seq::empty());
    match text::behind(path_of(s), "/_ement/"@) {
        Some(rest) => {
            let path = path_of(s);
            assert(path =~= seq!['/'] + ("_ement"@ + seq!['/'] + rest));
            let tail = "_ement"@ + seq!['/'] + rest;
            assert(path.skip(1) =~= tail);
            assert(tail[0] == '_');
            assert(text::trimmed_start(tail, '/') == tail);
            assert(text::trimmed_start(path, '/') == text::trimmed_start(path.skip(1), '/'));
            text::lemma_split_join("_ement"@, rest, '/');
            assert(routes::segments(path) == seq!["_ement"@] + text::split(rest, '/'));
            assert(routes::segments(path)[0] == "_ement"@);
        },
        None => {},
    }
}

/// What is intercepted, and by which method and path, whatever the version: a request has a
/// route exactly where its method and its segments are those of that route. Everything else
/// passes through.
pub proof fn routes_have_their_shapes(method: Seq<char>, s: Seq<Seq<char>>)
    requires
        can_be_segments(s),
        s[0] != "_ement"@,
    ensures
        ({
            let r = routes::route_of(method, path_of(s));
            let get = method == "GET"@;
            &&& r is Login <==> method == "POST"@ && client(s, 4) && s[3] == "login"@
            &&& r is Sync <==> get && client(s, 4) && s[3] == "sync"@
            &&& r is Send <==> method == "PUT"@ && client(s, 8) && s[3] == "rooms"@ && s[5]
                == "send"@
            &&& r is Messages <==> get && client(s, 6) && s[3] == "rooms"@ && s[5] == "messages"@
            &&& r is Context <==> get && client(s, 7) && s[3] == "rooms"@ && s[5] == "context"@
            &&& r is RoomEvent <==> get && client(s, 7) && s[3] == "rooms"@ && s[5] == "event"@
            &&& r is MediaUpload <==> method == "POST"@ && media(s) && s.len() == 4 && s[3]
                == "upload"@
            &&& r is MediaDownload <==> get && (client(s, s.len() as int) && s.len() >= 7 && s[3]
                == "media"@ && s[4] == "download"@ || media(s) && s.len() >= 6 && s[3]
                == "download"@)
            &&& !(r is Admin)
        }),
{
    lemma_words();
    lemma_not_admin(s);
    path_is_read_by_segments(s);
}

/// A request below `/_ement` goes to the proxy's own API, whatever its method, and is read
/// as what stands behind.
pub proof fn own_paths_reach_the_api(method: Seq<char>, rest: Seq<char>)
    ensures
        routes::route_of(method, "/_ement/"@ + rest) == RouteView::Admin(rest),
        routes::route_of(method, "/_ement"@) == RouteView::Admin(Seq::empty()),
{
    texts::prefix_is_stripped("/_ement/"@ + rest, "/_ement/"@, rest);
    reveal_strlit("/_ement/");
    reveal_strlit("/_ement");
    assert(!"/_ement/"@.is_prefix_of("/_ement"@));
}

/// The segments of a request about a room.
pub open spec fn room_segments(
    version: Seq<char>,
    room: Seq<char>,
    rest: Seq<Seq<char>>,
) -> Seq<Seq<char>> {
    seq!["_matrix"@, "client"@, version, "rooms"@, percent::encoded_text(room)] + rest
}

proof fn lemma_plain_segment(s: Seq<char>)
    ensures
        !percent::encoded_text(s).contains('/'),
{
    percent::enc_is_one_segment(s);
}

proof fn lemma_room_segments(version: Seq<char>, room: Seq<char>, rest: Seq<Seq<char>>)
    requires
        !version.contains('/'),
        forall|i: int| 0 <= i < rest.len() ==> !(#[trigger] rest[i]).contains('/'),
    ensures
        can_be_segments(room_segments(version, room, rest)),
        room_segments(version, room, rest)[0] != "_ement"@,
{
    lemma_words();
    reveal_strlit("_matrix");
    reveal_strlit("client");
    reveal_strlit("rooms");
    lemma_plain_segment(room);
    let s = room_segments(version, room, rest);
    assert(s[0] == "_matrix"@);
    assert("_matrix"@.len() == 7);
    assert forall|i: int| 0 <= i < s.len() implies !(#[trigger] s[i]).contains('/') by {
        if i >= 5 {
            assert(s[i] == rest[i - 5]);
        }
    }
}

/// Requests for a room's history name the room: whatever characters its ID holds, it is
/// read back from the encoded path as it is.
pub proof fn history_names_its_room(version: Seq<char>, room: Seq<char>, event: Seq<char>)
    requires
        !version.contains('/'),
        !event.contains('/'),
    ensures
        routes::route_of("GET"@, path_of(room_segments(version, room, seq!["messages"@])))
            == (RouteView::Messages { room_id: room }),
        routes::route_of("GET"@, path_of(room_segments(version, room, seq!["context"@, event])))
            == (RouteView::Context { room_id: room }),
        routes::route_of("GET"@, path_of(room_segments(version, room, seq!["event"@, event])))
            == (RouteView::RoomEvent { room_id: room }),
{
    lemma_words();
    reveal_strlit("messages");
    reveal_strlit("context");
    reveal_strlit("event");
    percent::dec_of_enc(room);
    let a = seq!["messages"@];
    let b = seq!["context"@, event];
    let c = seq!["event"@, event];
    lemma_room_segments(version, room, a);
    lemma_room_segments(version, room, b);
    lemma_room_segments(version, room, c);
    lemma_not_admin(room_segments(version, room, a));
    lemma_not_admin(room_segments(version, room, b));
    lemma_not_admin(room_segments(version, room, c));
    path_is_read_by_segments(room_segments(version, room, a));
    path_is_read_by_segments(room_segments(version, room, b));
    path_is_read_by_segments(room_segments(version, room, c));
    routes_have_their_shapes("GET"@, room_segments(version, room, a));
    routes_have_their_shapes("GET"@, room_segments(version, room, b));
    routes_have_their_shapes("GET"@, room_segments(version, room, c));
}

/// A message names its room, its type and its transaction: each is read back from the
/// encoded path as it is.
pub proof fn message_names_its_room(
    version: Seq<char>,
    room: Seq<char>,
    event_type: Seq<char>,
    txn_id: Seq<char>,
)
    requires
        !version.contains('/'),
    ensures
        routes::route_of(
            "PUT"@,
            path_of(
                room_segments(
                    version,
                    room,
                    seq![
                        "send"@,
                        percent::encoded_text(event_type),
                        percent::encoded_text(txn_id),
                    ],
                ),
            ),
        ) == (RouteView::Send { room_id: room, event_type, txn_id }),
{
    lemma_words();
    reveal_strlit("send");
    percent::dec_of_enc(room);
    percent::dec_of_enc(event_type);
    percent::dec_of_enc(txn_id);
    lemma_plain_segment(event_type);
    lemma_plain_segment(txn_id);
    let rest = seq!["send"@, percent::encoded_text(event_type), percent::encoded_text(txn_id)];
    let s = room_segments(version, room, rest);
    lemma_room_segments(version, room, rest);
    lemma_not_admin(s);
    path_is_read_by_segments(s);
    routes_have_their_shapes("PUT"@, s);
}

/// A download names its server and its media, by the authenticated path and by the legacy
/// one, with a file's name behind or without; only the authenticated path says that it is.
pub proof fn download_names_its_media(
    version: Seq<char>,
    server: Seq<char>,
    media_id: Seq<char>,
    name: Seq<Seq<char>>,
)
    requires
        !version.contains('/'),
        forall|i: int| 0 <= i < name.len() ==> !(#[trigger] name[i]).contains('/'),
    ensures
        routes::route_of(
            "GET"@,
            path_of(
                seq![
                    "_matrix"@,
                    "client"@,
                    version,
                    "media"@,
                    "download"@,
                    percent::encoded_text(server),
                    percent::encoded_text(media_id),
                ] + name,
            ),
        ) == (RouteView::MediaDownload { server, media_id, authenticated: true }),
        routes::route_of(
            "GET"@,
            path_of(
                seq![
                    "_matrix"@,
                    "media"@,
                    version,
                    "download"@,
                    percent::encoded_text(server),
                    percent::encoded_text(media_id),
                ] + name,
            ),
        ) == (RouteView::MediaDownload { server, media_id, authenticated: false }),
{
    lemma_words();
    reveal_strlit("_matrix");
    reveal_strlit("client");
    reveal_strlit("media");
    reveal_strlit("download");
    assert("_matrix"@.len() == 7);
    percent::dec_of_enc(server);
    percent::dec_of_enc(media_id);
    lemma_plain_segment(server);
    lemma_plain_segment(media_id);
    let a = seq![
        "_matrix"@,
        "client"@,
        version,
        "media"@,
        "download"@,
        percent::encoded_text(server),
        percent::encoded_text(media_id),
    ] + name;
    let b = seq![
        "_matrix"@,
        "media"@,
        version,
        "download"@,
        percent::encoded_text(server),
        percent::encoded_text(media_id),
    ] + name;
    assert forall|i: int| 0 <= i < a.len() implies !(#[trigger] a[i]).contains('/') by {
        if i >= 7 {
            assert(a[i] == name[i - 7]);
        }
    }
    assert forall|i: int| 0 <= i < b.len() implies !(#[trigger] b[i]).contains('/') by {
        if i >= 6 {
            assert(b[i] == name[i - 6]);
        }
    }
    assert(a[0] == "_matrix"@ && b[0] == "_matrix"@);
    lemma_not_admin(a);
    lemma_not_admin(b);
    path_is_read_by_segments(a);
    path_is_read_by_segments(b);
    routes_have_their_shapes("GET"@, a);
    routes_have_their_shapes("GET"@, b);
}

/// More slashes in front of a path change nothing in how it is read.
pub proof fn leading_slashes_do_not_count(path: Seq<char>)
    ensures
        routes::segments(seq!['/'] + path) == routes::segments(path),
{
    assert((seq!['/'] + path).skip(1) =~= path);
}

/// An ID without escapes, and without slashes, is read from a path as it is.
pub proof fn plain_ids_are_read_as_they_are(
    version: Seq<char>,
    room: Seq<char>,
    event: Seq<char>,
)
    requires
        !version.contains('/'),
        !room.contains('/'),
        !room.contains('%'),
        !event.contains('/'),
    ensures
        routes::route_of(
            "GET"@,
            path_of(seq!["_matrix"@, "client"@, version, "rooms"@, room, "messages"@]),
        ) == (RouteView::Messages { room_id: room }),
        routes::route_of(
            "GET"@,
            path_of(seq!["_matrix"@, "client"@, version, "rooms"@, room, "context"@, event]),
        ) == (RouteView::Context { room_id: room }),
        routes::route_of(
            "GET"@,
            path_of(seq!["_matrix"@, "client"@, version, "rooms"@, room, "event"@, event]),
        ) == (RouteView::RoomEvent { room_id: room }),
{
    lemma_words();
    reveal_strlit("_matrix");
    reveal_strlit("client");
    reveal_strlit("rooms");
    reveal_strlit("messages");
    reveal_strlit("context");
    reveal_strlit("event");
    assert("_matrix"@.len() == 7);
    percent::dec_of_plain(room);
    let a = seq!["_matrix"@, "client"@, version, "rooms"@, room, "messages"@];
    let b = seq!["_matrix"@, "client"@, version, "rooms"@, room, "context"@, event];
    let c = seq!["_matrix"@, "client"@, version, "rooms"@, room, "event"@, event];
    lemma_not_admin(a);
    lemma_not_admin(b);
    lemma_not_admin(c);
    path_is_read_by_segments(a);
    path_is_read_by_segments(b);
    path_is_read_by_segments(c);
    routes_have_their_shapes("GET"@, a);
    routes_have_their_shapes("GET"@, b);
    routes_have_their_shapes("GET"@, c);
}

/// A request logs out exactly where it posts to `logout`, or to `logout/all`, of any version.
pub proof fn logouts_have_their_shape(method: Seq<char>, s: Seq<Seq<char>>)
    requires
        can_be_segments(s),
    ensures
        routes::logs_out(method, path_of(s)) <==> method == "POST"@ && (s.len() == 4 || (s.len()
            == 5 && s[4] == "all"@)) && s[0] == "_matrix"@ && s[1] == "client"@ && s[3]
            == "logout"@,
{
    path_is_read_by_segments(s);
}

/// Only a logout that succeeds drops a session, and only that of its own token.
pub proof fn only_logouts_drop_sessions<C>(
    sessions: Map<Seq<char>, Session<C>>,
    method: Seq<char>,
    path: Seq<char>,
    token: Option<Seq<char>>,
    status: u16,
    other: Seq<char>,
)
    ensures
        ({
            let after = proxy::sessions_after(sessions, method, path, token, status);
            let drops = token == Some(other) && routes::logs_out(method, path) && 200 <= status
                <= 299;
            &&& after.contains_key(other) <==> sessions.contains_key(other) && !drops
            &&& after.contains_key(other) ==> after[other] == sessions[other]
        }),
{
}

proof fn lemma_room_path(room: Seq<char>, rest: Seq<Seq<char>>)
    requires
        rest.len() == 1 || rest.len() == 2,
    ensures
        path_of(room_segments("v3"@, room, rest)) == "/_matrix/client/v3/rooms/"@
            + percent::encoded_text(room) + path_of(rest),
{
    reveal_strlit("/_matrix/client/v3/rooms/");
    reveal_strlit("_matrix");
    reveal_strlit("client");
    reveal_strlit("v3");
    reveal_strlit("rooms");
    let e = percent::encoded_text(room);
    let a = seq!["_matrix"@, "client"@, "v3"@, "rooms"@];
    let s = a.push(e);
    assert(a.drop_last() =~= seq!["_matrix"@, "client"@, "v3"@]);
    assert(a.drop_last().drop_last() =~= seq!["_matrix"@, "client"@]);
    assert(a.drop_last().drop_last().drop_last() =~= seq!["_matrix"@]);
    assert(seq!["_matrix"@].drop_last() =~= Seq::empty());
    assert(path_of(Seq::empty()) =~= Seq::empty());
    assert(path_of(seq!["_matrix"@]) =~= seq!['/'] + "_matrix"@);
    assert(path_of(a.drop_last().drop_last()) =~= seq!['/'] + "_matrix"@ + seq!['/'] + "client"@);
    assert(path_of(a.drop_last()) =~= seq!['/'] + "_matrix"@ + seq!['/'] + "client"@ + seq!['/']
        + "v3"@);
    assert(path_of(a) =~= seq!['/'] + "_matrix"@ + seq!['/'] + "client"@ + seq!['/'] + "v3"@ + seq![
        '/',
    ] + "rooms"@);
    assert(path_of(a) + seq!['/'] =~= "/_matrix/client/v3/rooms/"@);
    assert(s.drop_last() =~= a);
    assert(path_of(s) =~= "/_matrix/client/v3/rooms/"@ + e);
    let all = room_segments("v3"@, room, rest);
    assert(all =~= s + rest);
    if rest.len() == 1 {
        assert(rest.drop_last() =~= Seq::empty());
        assert(all.drop_last() =~= s);
        assert(path_of(all) =~= path_of(s) + path_of(rest));
    } else {
        let front = rest.drop_last();
        assert(front.drop_last() =~= Seq::empty());
        assert(all.drop_last().drop_last() =~= s);
        assert(all.drop_last().last() == front.last());
        assert(path_of(front) =~= seq!['/'] + front.last());
        assert(path_of(all.drop_last()) =~= path_of(s) + path_of(front));
        assert(path_of(all) =~= path_of(s) + path_of(rest));
    }
}

/// The paths by which clients fetch history name the room whatever characters its ID holds:
/// it is read back as it is.
pub proof fn history_paths_name_their_room(room: Seq<char>, event: Seq<char>)
    ensures
        routes::route_of(
            "GET"@,
            "/_matrix/client/v3/rooms/"@ + percent::encoded_text(room) + "/messages"@,
        ) == (RouteView::Messages { room_id: room }),
        routes::route_of(
            "GET"@,
            "/_matrix/client/v3/rooms/"@ + percent::encoded_text(room) + ("/context/"@
                + percent::encoded_text(event)),
        ) == (RouteView::Context { room_id: room }),
        routes::route_of(
            "GET"@,
            "/_matrix/client/v3/rooms/"@ + percent::encoded_text(room) + ("/event/"@
                + percent::encoded_text(event)),
        ) == (RouteView::RoomEvent { room_id: room }),
{
    reveal_strlit("v3");
    let e = percent::encoded_text(event);
    lemma_plain_segment(event);
    lemma_tails(e);
    lemma_room_path(room, seq!["messages"@]);
    lemma_room_path(room, seq!["context"@, e]);
    lemma_room_path(room, seq!["event"@, e]);
    history_names_its_room("v3"@, room, e);
}

proof fn lemma_tails(e: Seq<char>)
    ensures
        path_of(seq!["messages"@]) == "/messages"@,
        path_of(seq!["context"@, e]) == "/context/"@ + e,
        path_of(seq!["event"@, e]) == "/event/"@ + e,
{
    reveal_strlit("messages");
    reveal_strlit("/messages");
    reveal_strlit("context");
    reveal_strlit("/context/");
    reveal_strlit("event");
    reveal_strlit("/event/");
    let a = seq!["messages"@];
    let b = seq!["context"@, e];
    let c = seq!["event"@, e];
    assert(path_of(Seq::empty()) =~= Seq::empty());
    assert(a.drop_last() =~= Seq::empty());
    assert(path_of(a) =~= "/messages"@);
    assert(b.drop_last() =~= seq!["context"@] && c.drop_last() =~= seq!["event"@]);
    assert(seq!["context"@].drop_last() =~= Seq::empty());
    assert(seq!["event"@].drop_last() =~= Seq::empty());
    assert(path_of(seq!["context"@]) =~= seq!['/'] + "context"@);
    assert(path_of(seq!["event"@]) =~= seq!['/'] + "event"@);
    assert(path_of(b) =~= "/context/"@ + e);
    assert(path_of(c) =~= "/event/"@ + e);
}

} // verus!
