//! Interactive verification of devices by comparing emoji.

use crate::crypto::machine;
use crate::crypto::machine::accepted;
use crate::failure::Failure;
use crate::json;
use crate::json::{Json, JsonView};
use crate::text;
use crate::text::borrow_text;
use crate::wire::Reply;
use vstd::prelude::*;
use vstd::string::*;

verus! {

/// Where a verification stands.
pub struct FlowState {
    pub flow_id: String,
    pub other_user: String,
    pub we_started: bool,
    pub is_ready: bool,
    pub is_done: bool,
    pub is_passive: bool,
    pub is_cancelled: bool,
    /// The methods that the other side supports, if it said so.
    pub their_methods: Option<Vec<String>>,
    pub state: String,
}

/// The emoji of a verification.
pub struct EmojiState {
    pub symbols: Vec<String>,
    pub descriptions: Vec<String>,
    /// All of them, laid out to be read.
    pub formatted: String,
}

/// Where the comparison of emoji stands.
pub struct SasState {
    pub emoji: Option<EmojiState>,
    pub decimals: Option<(u16, u16, u16)>,
    pub is_done: bool,
    pub can_be_presented: bool,
    /// Why it was cancelled, if it was.
    pub cancel_code: Option<String>,
}

/// A list of strings as JSON.
pub open spec fn strings_json(v: Seq<Seq<char>>) -> JsonView {
    JsonView::Array(v.map_values(|s: Seq<char>| JsonView::Str(s)))
}

fn strings(v: &Vec<String>) -> (r: Json)
    ensures
        r@ == strings_json(text::texts(v@)),
{
    let mut out: Vec<Json> = Vec::new();
    let mut i: usize = 0;
    while i < v.len()
        invariant
            i <= v@.len(),
            out@.len() == i,
            forall|k: int| 0 <= k < i ==> (#[trigger] out@[k])@ == JsonView::Str(v@[k]@),
        decreases v@.len() - i,
    {
        out.push(Json::text(v[i].as_str()));
        i += 1;
    }
    proof {
        json::lemma_array_view(out@);
        assert(json::array_view(out@) =~= text::texts(v@).map_values(
            |s: Seq<char>| JsonView::Str(s),
        ));
    }
    Json::Array(out)
}

/// Where a verification stands, as JSON.
pub open spec fn flow_json(f: FlowState) -> JsonView {
    JsonView::empty_object().with("flow_id"@, JsonView::Str(f.flow_id@)).with(
        "other_user"@,
        JsonView::Str(f.other_user@),
    ).with("we_started"@, JsonView::Bool(f.we_started)).with(
        "is_ready"@,
        JsonView::Bool(f.is_ready),
    ).with("is_done"@, JsonView::Bool(f.is_done)).with(
        "is_passive"@,
        JsonView::Bool(f.is_passive),
    ).with("is_cancelled"@, JsonView::Bool(f.is_cancelled)).with(
        "their_methods"@,
        match f.their_methods {
            Some(m) => strings_json(text::texts(m@)),
            None => JsonView::Null,
        },
    ).with("state"@, JsonView::Str(f.state@))
}

/// Where a verification stands, as JSON.
pub fn request_summary(f: &FlowState) -> (r: Json)
    ensures
        r@ == flow_json(*f),
{
    let mut out = Json::object();
    out.put("flow_id", Json::text(f.flow_id.as_str()));
    out.put("other_user", Json::text(f.other_user.as_str()));
    out.put("we_started", Json::Bool(f.we_started));
    out.put("is_ready", Json::Bool(f.is_ready));
    out.put("is_done", Json::Bool(f.is_done));
    out.put("is_passive", Json::Bool(f.is_passive));
    out.put("is_cancelled", Json::Bool(f.is_cancelled));
    let methods = match &f.their_methods {
        Some(m) => strings(m),
        None => Json::Null,
    };
    out.put("their_methods", methods);
    out.put("state", Json::text(f.state.as_str()));
    out
}

/// Emoji as JSON.
pub open spec fn emoji_json(e: EmojiState) -> JsonView {
    JsonView::empty_object().with("symbols"@, strings_json(text::texts(e.symbols@))).with(
        "descriptions"@,
        strings_json(text::texts(e.descriptions@)),
    ).with("formatted"@, JsonView::Str(e.formatted@))
}

/// Three numbers as JSON, or null.
pub open spec fn decimals_json(d: Option<(u16, u16, u16)>) -> JsonView {
    match d {
        Some((a, b, c)) => JsonView::Array(
            seq![
                JsonView::Natural(a as u64),
                JsonView::Natural(b as u64),
                JsonView::Natural(c as u64),
            ],
        ),
        None => JsonView::Null,
    }
}

/// Where the comparison of emoji stands, as JSON.
pub open spec fn sas_json(s: SasState) -> JsonView {
    JsonView::empty_object().with(
        "emoji"@,
        match s.emoji {
            Some(e) => emoji_json(e),
            None => JsonView::Null,
        },
    ).with("decimals"@, decimals_json(s.decimals)).with("is_done"@, JsonView::Bool(s.is_done)).with(
        "can_be_presented"@,
        JsonView::Bool(s.can_be_presented),
    ).with("cancel_info"@, JsonView::opt_str(text::opt_text(s.cancel_code)))
}

fn decimals(d: Option<(u16, u16, u16)>) -> (r: Json)
    ensures
        r@ == decimals_json(d),
{
    match d {
        Some((a, b, c)) => {
            let mut out: Vec<Json> = Vec::new();
            out.push(Json::Natural(a as u64));
            out.push(Json::Natural(b as u64));
            out.push(Json::Natural(c as u64));
            proof {
                json::lemma_array_view(out@);
                assert(json::array_view(out@) =~= seq![
                    JsonView::Natural(a as u64),
                    JsonView::Natural(b as u64),
                    JsonView::Natural(c as u64),
                ]);
            }
            Json::Array(out)
        },
        None => Json::Null,
    }
}

/// Where the comparison of emoji stands, as JSON.
pub fn sas_summary(s: &SasState) -> (r: Json)
    ensures
        r@ == sas_json(*s),
{
    let emoji = match &s.emoji {
        Some(e) => {
            let mut shown = Json::object();
            shown.put("symbols", strings(&e.symbols));
            shown.put("descriptions", strings(&e.descriptions));
            shown.put("formatted", Json::text(e.formatted.as_str()));
            shown
        },
        None => Json::Null,
    };
    let mut out = Json::object();
    out.put("emoji", emoji);
    out.put("decimals", decimals(s.decimals));
    out.put("is_done", Json::Bool(s.is_done));
    out.put("can_be_presented", Json::Bool(s.can_be_presented));
    out.put("cancel_info", Json::text_or_null(borrow_text(&s.cancel_code)));
    out
}

/// All verifications, as JSON.
pub open spec fn flows_json(v: Seq<FlowState>) -> JsonView {
    JsonView::empty_object().with(
        "requests"@,
        JsonView::Array(v.map_values(|f: FlowState| flow_json(f))),
    )
}

/// Lists verifications.
pub fn list(flows: &Vec<FlowState>) -> (r: Json)
    ensures
        r@ == flows_json(flows@),
{
    let mut items: Vec<Json> = Vec::new();
    let mut i: usize = 0;
    while i < flows.len()
        invariant
            i <= flows@.len(),
            items@.len() == i,
            forall|k: int| 0 <= k < i ==> (#[trigger] items@[k])@ == flow_json(flows@[k]),
        decreases flows@.len() - i,
    {
        items.push(request_summary(&flows[i]));
        i += 1;
    }
    proof {
        json::lemma_array_view(items@);
        assert(json::array_view(items@) =~= flows@.map_values(|f: FlowState| flow_json(f)));
    }
    let mut out = Json::object();
    out.put("requests", Json::Array(items));
    out
}

/// Shows a verification, with the comparison of emoji once there is one.
pub fn show(flow: &FlowState, sas: Option<&SasState>) -> (r: Json)
    ensures
        r@ == match sas {
            Some(s) => flow_json(*flow).with("sas"@, sas_json(*s)),
            None => flow_json(*flow),
        },
{
    let mut out = request_summary(flow);
    match sas {
        Some(s) => out.put("sas", sas_summary(s)),
        None => {},
    }
    out
}

/// A verification that was looked up.
pub fn get_request<R>(flow_id: &str, with_user: &str, found: Option<R>) -> (r: Result<R, Failure>)
    ensures
        match found {
            Some(request) => r == Ok::<R, Failure>(request),
            None => r matches Err(f) && f@ == seq![
                "no verification flow "@ + flow_id@ + " with "@ + with_user@,
            ],
        },
{
    match found {
        Some(request) => Ok(request),
        None => {
            let message = "no verification flow ".to_owned().concat(flow_id).concat(" with ").concat(
                with_user,
            );
            Err(Failure::new(message.as_str()))
        },
    }
}

/// What a verification has turned into.
pub enum Turned<S> {
    /// A comparison of emoji.
    Sas(S),
    /// Something else.
    Other,
    /// Nothing yet.
    Nothing,
}

/// What is said of a verification that has turned into something else.
pub open spec fn not_sas_message(flow_id: Seq<char>) -> Seq<char> {
    "flow "@ + flow_id + " is not a SAS verification"@
}

/// What is said of a verification in which no emoji are compared yet.
pub open spec fn no_sas_message(flow_id: Seq<char>) -> Seq<char> {
    "flow "@ + flow_id
        + " has no active SAS yet (accept it first, then start-sas — or wait for the other side to choose emoji verification)"@
}

/// The comparison of emoji that a verification has turned into.
pub fn get_sas<S>(flow_id: &str, found: Turned<S>) -> (r: Result<S, Failure>)
    ensures
        match found {
            Turned::Sas(sas) => r == Ok::<S, Failure>(sas),
            Turned::Other => r matches Err(f) && f@ == seq![not_sas_message(flow_id@)],
            Turned::Nothing => r matches Err(f) && f@ == seq![no_sas_message(flow_id@)],
        },
{
    match found {
        Turned::Sas(sas) => Ok(sas),
        Turned::Other => {
            let message = "flow ".to_owned().concat(flow_id).concat(" is not a SAS verification");
            Err(Failure::new(message.as_str()))
        },
        Turned::Nothing => {
            let message = "flow ".to_owned().concat(flow_id).concat(
                " has no active SAS yet (accept it first, then start-sas — or wait for the other side to choose emoji verification)",
            );
            Err(Failure::new(message.as_str()))
        },
    }
}

/// The device that a verification is started with.
pub fn start<D>(device_id: &str, found: Option<D>) -> (r: Result<D, Failure>)
    ensures
        match found {
            Some(device) => r == Ok::<D, Failure>(device),
            None => r matches Err(f) && f@ == seq![
                "device "@ + device_id@ + " not found (has it queried keys yet?)"@,
            ],
        },
{
    match found {
        Some(device) => Ok(device),
        None => {
            let message = "device ".to_owned().concat(device_id).concat(
                " not found (has it queried keys yet?)",
            );
            Err(Failure::new(message.as_str()))
        },
    }
}

/// The message that accepts a verification, if it can be accepted.
pub fn accept<M>(message: Option<M>) -> (r: Result<M, Failure>)
    ensures
        match message {
            Some(m) => r == Ok::<M, Failure>(m),
            None => r matches Err(f) && f@ == seq![
                "flow cannot be accepted in its current state"@,
            ],
        },
{
    match message {
        Some(m) => Ok(m),
        None => Err(Failure::new("flow cannot be accepted in its current state")),
    }
}

/// The comparison of emoji that a verification starts, if it is ready for it.
pub fn start_sas<M>(started: Option<M>) -> (r: Result<M, Failure>)
    ensures
        match started {
            Some(m) => r == Ok::<M, Failure>(m),
            None => r matches Err(f) && f@ == seq![
                "flow is not ready for SAS (accept it on both sides first)"@,
            ],
        },
{
    match started {
        Some(m) => Ok(m),
        None => Err(Failure::new("flow is not ready for SAS (accept it on both sides first)")),
    }
}

/// What comes of the reply to the upload of signatures that a confirmed verification leads
/// to.
pub fn confirm(reply: Result<Reply, Failure>) -> (r: Result<Json, Failure>)
    ensures
        machine::json_result(r) == machine::accepted_body(
            "signature upload after verification failed: "@,
            " "@,
            reply,
        ),
{
    accepted("signature upload after verification failed: ", " ", reply)
}

} // verus!
