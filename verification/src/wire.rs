//! HTTP requests and responses as plain values.

use crate::failure::Failure;
use crate::json::{Json, JsonView};
use crate::json_text;
use crate::json_text::write_json;
use vstd::prelude::*;
use vstd::string::*;
use vstd::utf8::*;

verus! {

/// A request that the proxy makes of the homeserver.
pub struct HttpRequest {
    pub method: String,
    pub path: String,
    pub body: Option<Json>,
}

/// What a request asks.
pub struct RequestView {
    pub method: Seq<char>,
    pub path: Seq<char>,
    pub body: Option<JsonView>,
}

/// What an owned optional JSON value says.
pub open spec fn body_view(b: Option<Json>) -> Option<JsonView> {
    match b {
        Some(j) => Some(j@),
        None => None,
    }
}

impl HttpRequest {
    pub open spec fn view(&self) -> RequestView {
        RequestView {
            method: self.method@,
            path: self.path@,
            body: body_view(self.body),
        }
    }

    /// A request without a body.
    pub fn get(path: String) -> (r: HttpRequest)
        ensures
            r@ == get_request(path@),
    {
        HttpRequest { method: "GET".to_owned(), path, body: None }
    }

    /// A request with a JSON body.
    pub fn with_body(method: &str, path: String, body: Json) -> (r: HttpRequest)
        ensures
            r@ == body_request(method@, path@, body@),
    {
        HttpRequest { method: method.to_owned(), path, body: Some(body) }
    }
}

/// A GET of `path`.
pub open spec fn get_request(path: Seq<char>) -> RequestView {
    RequestView { method: "GET"@, path, body: None }
}

/// A request with a JSON body.
pub open spec fn body_request(
    method: Seq<char>,
    path: Seq<char>,
    body: JsonView,
) -> RequestView {
    RequestView { method, path, body: Some(body) }
}

/// The homeserver's reply to such a request.
pub struct Reply {
    pub status: u16,
    pub body: Json,
}

/// The response that goes back to the client.
pub struct Response {
    pub status: u16,
    pub headers: Vec<(String, Vec<u8>)>,
    pub body: Vec<u8>,
}

/// What a response says.
pub struct ResponseView {
    pub status: u16,
    pub headers: Seq<(Seq<char>, Seq<u8>)>,
    pub body: Seq<u8>,
}

/// The names and values of some headers.
pub open spec fn headers_view(headers: Seq<(String, Vec<u8>)>) -> Seq<(Seq<char>, Seq<u8>)> {
    headers.map_values(|h: (String, Vec<u8>)| (h.0@, h.1@))
}

impl Response {
    pub open spec fn view(&self) -> ResponseView {
        ResponseView {
            status: self.status,
            headers: headers_view(self.headers@),
            body: self.body@,
        }
    }
}

/// Whether a status code reports success.
pub open spec fn success(status: u16) -> bool {
    200 <= status <= 299
}

/// Whether a status code reports success.
pub fn is_success(status: u16) -> (r: bool)
    ensures
        r == success(status),
{
    200 <= status && status <= 299
}

/// What `http::StatusCode` prints for a code: the code and its reason, or, for a
/// code out of range, the message of the error.
pub uninterp spec fn status_line(code: u16) -> Seq<char>;

/// The text of `http::StatusCode::from_u16`, printed: the code and its reason.
#[verifier::external_body]
pub(crate) fn status_text(code: u16) -> (r: String)
    ensures
        r@ == status_line(code),
{
    http::StatusCode::from_u16(code).map_or_else(|e| e.to_string(), |s| s.to_string())
}

/// `http::StatusCode::from_u16` takes codes of three digits, and says of others
/// that they are invalid.
#[verifier::external_body]
pub(crate) fn checked_status(code: u16) -> (r: Result<u16, String>)
    ensures
        match r {
            Ok(c) => 100 <= code <= 999 && c == code,
            Err(e) => !(100 <= code <= 999) && e@ == "invalid status code"@,
        },
{
    http::StatusCode::from_u16(code).map(|s| s.as_u16()).map_err(|e| e.to_string())
}

/// The message of a failure that a reply reports: a text, the status line, a
/// separator and the reply's body.
pub open spec fn reply_message(
    prefix: Seq<char>,
    status: u16,
    separator: Seq<char>,
    body: JsonView,
) -> Seq<char> {
    prefix + status_line(status) + separator + json_text::json_text(body)
}

/// The failure that a reply reports.
pub(crate) fn reply_failure(prefix: &str, reply: &Reply, separator: &str) -> (r: Failure)
    ensures
        r@ == seq![reply_message(prefix@, reply.status, separator@, reply.body@)],
{
    let message = prefix.to_owned().concat(status_text(reply.status).as_str()).concat(
        separator,
    ).concat(write_json(&reply.body).as_str());
    Failure::new(message.as_str())
}

/// Whether a byte may stand in a header value.
pub open spec fn header_byte(b: u8) -> bool {
    (b >= 32 && b != 127) || b == 9
}

/// Whether a byte is a visible ASCII character, a space or a tab.
pub open spec fn visible_byte(b: u8) -> bool {
    (32 <= b < 127) || b == 9
}

/// Whether a text can be a header value.
pub open spec fn valid_header(s: Seq<char>) -> bool {
    forall|i: int| 0 <= i < encode_utf8(s).len() ==> header_byte(#[trigger] encode_utf8(s)[i])
}

/// `http::HeaderValue::from_str`: the bytes of the text, provided that none is a
/// control character other than tab.
#[verifier::external_body]
pub(crate) fn header_value(s: &str) -> (r: Option<Vec<u8>>)
    ensures
        match r {
            Some(v) => valid_header(s@) && v@ == encode_utf8(s@),
            None => !valid_header(s@),
        },
{
    http::HeaderValue::from_str(s).ok().map(|v| v.as_bytes().to_vec())
}

/// The text of a header value whose bytes are all visible.
pub open spec fn header_string(bytes: Seq<u8>) -> Option<Seq<char>> {
    if forall|i: int| 0 <= i < bytes.len() ==> visible_byte(#[trigger] bytes[i]) {
        Some(Seq::new(bytes.len(), |i: int| bytes[i] as char))
    } else {
        None
    }
}

/// `http::HeaderValue::to_str`: the text of a header value, provided that it holds
/// visible ASCII characters, spaces and tabs only.
#[verifier::external_body]
pub(crate) fn header_text(bytes: &[u8]) -> (r: Option<String>)
    ensures
        crate::text::opt_text(r) == header_string(bytes@),
{
    let value = http::HeaderValue::from_bytes(bytes).ok()?;
    value.to_str().ok().map(str::to_owned)
}

/// The headers of a response that has at most a content type.
pub open spec fn content_type_headers(content_type: Option<Seq<u8>>) -> Seq<
    (Seq<char>, Seq<u8>),
> {
    match content_type {
        Some(ct) => seq![("content-type"@, ct)],
        None => Seq::empty(),
    }
}

/// The view of optional bytes.
pub open spec fn opt_bytes(b: Option<Vec<u8>>) -> Option<Seq<u8>> {
    match b {
        Some(v) => Some(v@),
        None => None,
    }
}

/// The headers of a response that has at most a content type.
pub(crate) fn content_type_header(content_type: Option<Vec<u8>>) -> (r: Vec<(String, Vec<u8>)>)
    ensures
        headers_view(r@) == content_type_headers(opt_bytes(content_type)),
{
    let mut headers: Vec<(String, Vec<u8>)> = Vec::new();
    match content_type {
        Some(ct) => {
            headers.push(("content-type".to_owned(), ct));
            assert(headers_view(headers@) =~= seq![("content-type"@, ct@)]);
        },
        None => {
            assert(headers_view(headers@) =~= Seq::empty());
        },
    }
    headers
}

/// The bytes of `application/json`.
pub open spec fn json_type() -> Seq<u8> {
    encode_utf8("application/json"@)
}

/// The content type of JSON.
pub(crate) fn json_content_type() -> (r: Vec<u8>)
    ensures
        r@ == json_type(),
{
    "application/json".as_bytes_vec()
}

} // verus!
