//! Requests to the real homeserver.

use crate::crypto::media::RawUpload;
use crate::failure::Failure;
use crate::json::{Json, JsonView};
use crate::json_text;
use crate::json_text::parse_json;
use crate::text;
use crate::wire::Reply;
use vstd::prelude::*;
use vstd::string::*;

verus! {

/// What `reqwest::Url::parse` makes of a text: the URL's own text, or that of the error.
pub uninterp spec fn url_parsed(s: Seq<char>) -> Result<Seq<char>, Seq<char>>;

/// The path of a URL, by `reqwest::Url::path`; none where the text is no URL.
pub uninterp spec fn url_path(url: Seq<char>) -> Option<Seq<char>>;

/// The text of a URL behind `reqwest::Url::set_path`; none where the text is no URL.
pub uninterp spec fn url_with_path(url: Seq<char>, path: Seq<char>) -> Option<Seq<char>>;

/// The text of what `reqwest::Url::join` gives; none where it gives nothing, or where the
/// text is no URL.
pub uninterp spec fn url_joined(url: Seq<char>, path: Seq<char>) -> Option<Seq<char>>;

/// The text of a URL behind `append_pair` on its query; none where the text is no URL.
pub uninterp spec fn url_with_pair(url: Seq<char>, key: Seq<char>, value: Seq<char>) -> Option<
    Seq<char>,
>;

/// `reqwest::Url::parse`, and the text of the URL.
#[verifier::external_body]
pub(crate) fn parse_url(s: &str) -> (r: Result<String, String>)
    ensures
        match r {
            Ok(url) => url_parsed(s@) == Ok::<Seq<char>, Seq<char>>(url@),
            Err(e) => url_parsed(s@) == Err::<Seq<char>, Seq<char>>(e@),
        },
{
    reqwest::Url::parse(s).map(|url| url.to_string()).map_err(|e| e.to_string())
}

/// `reqwest::Url::path`.
#[verifier::external_body]
pub(crate) fn path_of_url(url: &str) -> (r: Option<String>)
    ensures
        text::opt_text(r) == url_path(url@),
{
    reqwest::Url::parse(url).ok().map(|url| url.path().to_owned())
}

/// `reqwest::Url::set_path`.
#[verifier::external_body]
pub(crate) fn set_url_path(url: &str, path: &str) -> (r: Option<String>)
    ensures
        text::opt_text(r) == url_with_path(url@, path@),
{
    let mut url = reqwest::Url::parse(url).ok()?;
    url.set_path(path);
    Some(url.to_string())
}

/// `reqwest::Url::join`.
#[verifier::external_body]
fn join_url(url: &str, path: &str) -> (r: Option<String>)
    ensures
        text::opt_text(r) == url_joined(url@, path@),
{
    let url = reqwest::Url::parse(url).ok()?;
    url.join(path).ok().map(|url| url.to_string())
}

/// `append_pair` on `reqwest::Url::query_pairs_mut`.
#[verifier::external_body]
fn append_pair(url: &str, key: &str, value: &str) -> (r: Option<String>)
    ensures
        text::opt_text(r) == url_with_pair(url@, key@, value@),
{
    let mut url = reqwest::Url::parse(url).ok()?;
    url.query_pairs_mut().append_pair(key, value);
    Some(url.to_string())
}

/// The homeserver.
pub struct Upstream {
    /// Its URL, without a path.
    pub base: String,
}

/// The URL of a path on the homeserver: the path joined onto the bare URL or, where
/// that gives nothing, set as its path.
pub open spec fn upstream_url(base: Seq<char>, path_and_query: Seq<char>) -> Option<Seq<char>> {
    match url_with_path(base, Seq::empty()) {
        Some(bare) => match url_joined(bare, path_and_query) {
            Some(url) => Some(url),
            None => url_with_path(base, path_and_query),
        },
        None => None,
    }
}

/// The URL that a file is uploaded to.
pub open spec fn upload_target(
    base: Seq<char>,
    path: Seq<char>,
    filename: Option<Seq<char>>,
) -> Option<Seq<char>> {
    match (upstream_url(base, path), filename) {
        (Some(url), Some(name)) => url_with_pair(url, "filename"@, name),
        (url, _) => url,
    }
}

impl Upstream {
    /// The homeserver at a URL.
    pub fn new(base: String) -> (r: Upstream)
        ensures
            r.base@ == base@,
    {
        Upstream { base }
    }

    /// The URL of a path, with or without a query, on the homeserver; none where the
    /// homeserver's URL is none.
    pub fn url(&self, path_and_query: &str) -> (r: Option<String>)
        ensures
            text::opt_text(r) == upstream_url(self.base@, path_and_query@),
    {
        proof {
            reveal_strlit("");
            assert(""@ =~= Seq::empty());
        }
        match set_url_path(self.base.as_str(), "") {
            Some(bare) => match join_url(bare.as_str(), path_and_query) {
                Some(url) => Some(url),
                None => set_url_path(self.base.as_str(), path_and_query),
            },
            None => None,
        }
    }

    /// The URL that a file is uploaded to, with the file's name if it is known.
    pub fn upload_url(&self, file: &RawUpload) -> (r: Option<String>)
        ensures
            text::opt_text(r) == upload_target(
                self.base@,
                file.path@,
                text::opt_text(file.filename),
            ),
    {
        let url = self.url(file.path.as_str());
        match (url, &file.filename) {
            (Some(url), Some(name)) => append_pair(url.as_str(), "filename", name.as_str()),
            (url, _) => url,
        }
    }
}

/// A reply to a request of the proxy's own, as it came in.
pub struct RawReply {
    pub status: u16,
    /// The bytes of the body, or why they could not be read.
    pub body: Result<Vec<u8>, String>,
}

/// A reply, or why there is none.
pub open spec fn reply_result(r: Result<Reply, Failure>) -> Result<
    (u16, JsonView),
    Seq<Seq<char>>,
> {
    match r {
        Ok(reply) => Ok((reply.status, reply.body@)),
        Err(f) => Err(f@),
    }
}

/// A reply read as JSON. An empty body is null.
pub open spec fn json_reply(status: u16, bytes: Seq<u8>) -> Result<
    (u16, JsonView),
    Seq<Seq<char>>,
> {
    if bytes.len() == 0 {
        Ok((status, JsonView::Null))
    } else {
        match json_text::parsed(bytes) {
            Ok(body) => Ok((status, body)),
            Err(e) => Err(seq!["upstream returned non-JSON body"@, e]),
        }
    }
}

impl Upstream {
    /// Reads the reply to a request of the proxy's own, whatever its status is.
    pub fn json_request(sent: Result<RawReply, String>) -> (r: Result<Reply, Failure>)
        ensures
            reply_result(r) == match sent {
                Ok(reply) => match reply.body {
                    Ok(bytes) => json_reply(reply.status, bytes@),
                    Err(e) => Err(seq!["failed to read upstream body"@, e@]),
                },
                Err(e) => Err(seq!["upstream request failed"@, e@]),
            },
    {
        let reply = match sent {
            Ok(reply) => reply,
            Err(e) => {
                let f = Failure::caused("upstream request failed", e.as_str());
                return Err(f);
            },
        };
        let bytes = match reply.body {
            Ok(bytes) => bytes,
            Err(e) => {
                let f = Failure::caused("failed to read upstream body", e.as_str());
                return Err(f);
            },
        };
        if bytes.len() == 0 {
            return Ok(Reply { status: reply.status, body: Json::Null });
        }
        match parse_json(bytes.as_slice()) {
            Ok(body) => Ok(Reply { status: reply.status, body }),
            Err(e) => {
                let f = Failure::caused("upstream returned non-JSON body", e.as_str());
                Err(f)
            },
        }
    }
}

} // verus!
