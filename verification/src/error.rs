//! Errors that reach the client as Matrix-style JSON errors.

use crate::failure;
use crate::failure::Failure;
use crate::json::{Json, JsonView};
use crate::json_text;
use crate::json_text::write_bytes;
use crate::wire;
use crate::wire::{content_type_header, json_content_type, Response, ResponseView};
use vstd::prelude::*;
use vstd::utf8::*;

verus! {

/// Why a request of the client could not be answered.
pub enum ProxyError {
    /// The homeserver could not be reached, or its reply could not be read.
    Upstream(String),
    /// Something went wrong in the proxy.
    Internal(Failure),
    /// The client's request cannot be handled.
    BadRequest(String),
}

/// What an error says.
pub enum ProxyErrorView {
    Upstream(Seq<char>),
    Internal(Seq<Seq<char>>),
    BadRequest(Seq<char>),
}

impl ProxyErrorView {
    /// The status code that goes with the error.
    pub open spec fn status(self) -> u16 {
        match self {
            ProxyErrorView::Upstream(_) => 502,
            ProxyErrorView::Internal(_) => 500,
            ProxyErrorView::BadRequest(_) => 400,
        }
    }

    /// The message of the error.
    pub open spec fn message(self) -> Seq<char> {
        match self {
            ProxyErrorView::Upstream(e) => "upstream request failed: "@ + e,
            ProxyErrorView::Internal(f) => failure::outermost(f),
            ProxyErrorView::BadRequest(m) => m,
        }
    }

    /// The body of the response.
    pub open spec fn body(self) -> JsonView {
        JsonView::empty_object().with("errcode"@, JsonView::Str("M_UNKNOWN"@)).with(
            "error"@,
            JsonView::Str("ement-e2ee: "@ + self.message()),
        )
    }

    /// The response that the client gets.
    pub open spec fn response(self) -> ResponseView {
        ResponseView {
            status: self.status(),
            headers: wire::content_type_headers(Some(wire::json_type())),
            body: encode_utf8(json_text::json_text(self.body())),
        }
    }
}

impl ProxyError {
    pub open spec fn view(&self) -> ProxyErrorView {
        match self {
            ProxyError::Upstream(e) => ProxyErrorView::Upstream(e@),
            ProxyError::Internal(f) => ProxyErrorView::Internal(f@),
            ProxyError::BadRequest(m) => ProxyErrorView::BadRequest(m@),
        }
    }

    /// The message of the error.
    pub fn message(&self) -> (r: String)
        ensures
            r@ == self@.message(),
    {
        match self {
            ProxyError::Upstream(e) => "upstream request failed: ".to_owned().concat(e.as_str()),
            ProxyError::Internal(f) => f.message(),
            ProxyError::BadRequest(m) => m.clone(),
        }
    }

    /// The response that the client gets: the status that goes with the error, and
    /// its message as a Matrix error body.
    pub fn into_response(self) -> (r: Response)
        ensures
            r@ == self@.response(),
    {
        let status: u16 = match &self {
            ProxyError::Upstream(_) => 502,
            ProxyError::Internal(_) => 500,
            ProxyError::BadRequest(_) => 400,
        };
        let mut body = Json::object();
        body.put("errcode", Json::text("M_UNKNOWN"));
        body.put("error", Json::Str("ement-e2ee: ".to_owned().concat(self.message().as_str())));
        Response {
            status,
            headers: content_type_header(Some(json_content_type())),
            body: write_bytes(&body),
        }
    }
}

} // verus!
