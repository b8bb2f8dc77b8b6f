//! Errors, headers, and the homeserver's address.

use crate::config;
use crate::error::ProxyErrorView;
use crate::json::JsonView;
use crate::json_text;
use crate::proxy::passthrough;
use crate::upstream;
use crate::wire;
use vstd::prelude::*;
use vstd::string::*;
use vstd::utf8::*;

verus! {

proof fn lemma_words()
    ensures
        "errcode"@ != "error"@,
{
    reveal_strlit("errcode");
    reveal_strlit("error");
    assert("errcode"@.len() == 7 && "error"@.len() == 5);
}

/// An error reaches the client as one of the homeserver's would: as JSON with a code and a
/// message, which names the proxy. The status tells whose fault it is.
pub proof fn errors_are_told(e: ProxyErrorView, key: Seq<char>)
    ensures
        ({
            let r = e.response();
            &&& r.status == match e {
                ProxyErrorView::Upstream(_) => 502u16,
                ProxyErrorView::Internal(_) => 500u16,
                ProxyErrorView::BadRequest(_) => 400u16,
            }
            &&& r.headers == seq![("content-type"@, encode_utf8("application/json"@))]
            &&& r.body == encode_utf8(json_text::json_text(e.body()))
            &&& e.body() is Object
            &&& e.body().get("errcode"@) == Some(JsonView::Str("M_UNKNOWN"@))
            &&& e.body().get("error"@) == Some(
                JsonView::Str(
                    "ement-e2ee: "@ + match e {
                        ProxyErrorView::Upstream(why) => "upstream request failed: "@ + why,
                        ProxyErrorView::Internal(f) => if f.len() > 0 {
                            f[0]
                        } else {
                            Seq::empty()
                        },
                        ProxyErrorView::BadRequest(why) => why,
                    },
                ),
            )
            &&& key != "errcode"@ && key != "error"@ ==> e.body().get(key) is None
        }),
{
    lemma_words();
}

/// The headers that concern a single connection, and the host, which is the proxy's own.
pub open spec fn own_headers() -> Seq<Seq<char>> {
    seq![
        "connection"@,
        "proxy-authenticate"@,
        "proxy-authorization"@,
        "te"@,
        "trailer"@,
        "transfer-encoding"@,
        "upgrade"@,
        "keep-alive"@,
        "proxy-connection"@,
        "host"@,
    ]
}

/// How many of the first `n` headers are handed on.
pub open spec fn handed_on_before(headers: Seq<(Seq<char>, Seq<u8>)>, n: int) -> nat
    decreases n,
{
    if n <= 0 {
        0
    } else if own_headers().contains(headers[n - 1].0) {
        handed_on_before(headers, n - 1)
    } else {
        handed_on_before(headers, n - 1) + 1
    }
}

proof fn lemma_handed_on(headers: Seq<(Seq<char>, Seq<u8>)>, last: (Seq<char>, Seq<u8>), n: int)
    requires
        0 <= n <= headers.len(),
    ensures
        handed_on_before(headers.push(last), n) == handed_on_before(headers, n),
    decreases n,
{
    if n > 0 {
        lemma_handed_on(headers, last, n - 1);
    }
}

proof fn lemma_own(name: Seq<char>)
    ensures
        passthrough::forwarded(name) <==> !own_headers().contains(name),
{
    let own = own_headers();
    assert(own[0] == "connection"@);
    assert(own[1] == "proxy-authenticate"@);
    assert(own[2] == "proxy-authorization"@);
    assert(own[3] == "te"@);
    assert(own[4] == "trailer"@);
    assert(own[5] == "transfer-encoding"@);
    assert(own[6] == "upgrade"@);
    assert(own[7] == "keep-alive"@);
    assert(own[8] == "proxy-connection"@);
    assert(own[9] == "host"@);
}

/// Every other header is handed on, with its value, in its place among those that are.
pub proof fn headers_are_handed_on(headers: Seq<(Seq<char>, Seq<u8>)>)
    ensures
        passthrough::kept_headers(headers).len() == handed_on_before(headers, headers.len() as int),
        forall|i: int|
            #![trigger headers[i]]
            0 <= i < headers.len() && !own_headers().contains(headers[i].0) ==> {
                &&& handed_on_before(headers, i) < passthrough::kept_headers(headers).len()
                &&& passthrough::kept_headers(headers)[handed_on_before(headers, i) as int]
                    == headers[i]
            },
    decreases headers.len(),
{
    reveal(Seq::filter);
    if headers.len() > 0 {
        let front = headers.drop_last();
        let last = headers.last();
        headers_are_handed_on(front);
        lemma_own(last.0);
        assert(headers =~= front.push(last));
        assert forall|i: int|
            #![trigger headers[i]]
            0 <= i < headers.len() && !own_headers().contains(headers[i].0) implies {
            &&& handed_on_before(headers, i) < passthrough::kept_headers(headers).len()
            &&& passthrough::kept_headers(headers)[handed_on_before(headers, i) as int]
                == headers[i]
        } by {
            lemma_handed_on(front, last, i);
            if i < front.len() {
                assert(front[i] == headers[i]);
            }
        }
        lemma_handed_on(front, last, front.len() as int);
    }
}

/// A reply to a request of the proxy's own is its status and the JSON of its body; one
/// without a body is null.
pub proof fn own_replies_are_read(status: u16, bytes: Seq<u8>)
    ensures
        bytes.len() == 0 ==> upstream::json_reply(status, bytes) == Ok::<
            (u16, JsonView),
            Seq<Seq<char>>,
        >((status, JsonView::Null)),
        bytes.len() > 0 ==> match json_text::parsed(bytes) {
            Ok(body) => upstream::json_reply(status, bytes) == Ok::<
                (u16, JsonView),
                Seq<Seq<char>>,
            >((status, body)),
            Err(e) => upstream::json_reply(status, bytes) matches Err(f) && f.len() == 2 && f[1]
                == e,
        },
{
}

/// A path is taken relative to the homeserver's address without its own path; an upload
/// carries its file's name as a parameter, where it has one.
pub proof fn requests_go_to_the_homeserver(
    base: Seq<char>,
    bare: Seq<char>,
    path: Seq<char>,
    url: Seq<char>,
    name: Seq<char>,
)
    requires
        upstream::url_with_path(base, Seq::empty()) == Some(bare),
        upstream::url_joined(bare, path) == Some(url),
    ensures
        upstream::upstream_url(base, path) == Some(url),
        upstream::upload_target(base, path, None) == Some(url),
        upstream::upload_target(base, path, Some(name)) == upstream::url_with_pair(
            url,
            "filename"@,
            name,
        ),
{
}

/// The homeserver's address is the URL that was given, without a path; one with a path of
/// its own, and what is no URL, is refused.
pub proof fn homeserver_has_no_path(given: Seq<char>)
    ensures
        config::normalized_homeserver(None) is Err,
        match upstream::url_parsed(given) {
            Err(e) => config::normalized_homeserver(Some(given)) matches Err(f) && f.len() == 2
                && f[1] == e,
            Ok(url) => match upstream::url_path(url) {
                Some(p) => if p.len() == 0 || p == seq!['/'] {
                    match upstream::url_with_path(url, Seq::empty()) {
                        Some(bare) => config::normalized_homeserver(Some(given)) == Ok::<
                            Seq<char>,
                            Seq<Seq<char>>,
                        >(bare),
                        None => config::normalized_homeserver(Some(given)) == Ok::<
                            Seq<char>,
                            Seq<Seq<char>>,
                        >(url),
                    }
                } else {
                    config::normalized_homeserver(Some(given)) is Err
                },
                None => config::normalized_homeserver(Some(given)) is Ok,
            },
        },
{
    reveal_strlit("/");
    assert("/"@ =~= seq!['/']);
}

/// A status reports success from 200 up to 299, and not elsewhere.
pub proof fn success_is_two_hundred(status: u16)
    ensures
        wire::success(status) <==> 200 <= status < 300,
{
}

/// A refusal is told with its status and its body.
pub proof fn refusals_are_told(
    prefix: Seq<char>,
    status: u16,
    separator: Seq<char>,
    body: JsonView,
)
    ensures
        wire::reply_message(prefix, status, separator, body) == prefix + wire::status_line(status)
            + separator + json_text::json_text(body),
{
}

/// A path that cannot be taken relative to the address takes the place of its path.
pub proof fn odd_paths_take_the_place_of_the_path(
    base: Seq<char>,
    bare: Seq<char>,
    path: Seq<char>,
)
    requires
        upstream::url_with_path(base, Seq::empty()) == Some(bare),
        upstream::url_joined(bare, path) is None,
    ensures
        upstream::upstream_url(base, path) == upstream::url_with_path(base, path),
{
}

} // verus!
