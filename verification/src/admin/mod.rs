//! The proxy's own API, below `/_ement`.

pub mod ctl;

use crate::error::{ProxyError, ProxyErrorView};
use crate::failure::Failure;
use crate::ids;
use crate::ids::is_user_id;
use crate::json;
use crate::json::{Json, JsonView};
use crate::json_text;
use crate::json_text::{parse_json, write_bytes};
use crate::percent;
use crate::percent::dec;
use crate::proxy;
use crate::proxy::{token_in_header, value_in_query};
use crate::session;
use crate::session::{Session, SessionManager};
use crate::text;
use crate::text::{join, same_text, split_text};
use crate::wire;
use crate::wire::{content_type_header, json_content_type, Response, ResponseView};
use vstd::prelude::*;
use vstd::string::*;
use vstd::utf8::*;

verus! {

/// How many bytes the body of a request may have.
pub const MAX_BODY_BYTES: usize = 1_048_576;

/// A JSON response.
pub open spec fn json_view(status: u16, body: JsonView) -> ResponseView {
    ResponseView {
        status,
        headers: wire::content_type_headers(Some(wire::json_type())),
        body: encode_utf8(json_text::json_text(body)),
    }
}

/// The response that reports an error.
pub open spec fn error_view(status: u16, message: Seq<char>) -> ResponseView {
    json_view(status, JsonView::empty_object().with("error"@, JsonView::Str(message)))
}

/// A JSON response.
pub fn json_response(status: u16, body: &Json) -> (r: Response)
    ensures
        r@ == json_view(status, body@),
{
    Response {
        status,
        headers: content_type_header(Some(json_content_type())),
        body: write_bytes(body),
    }
}

/// The response that reports an error.
pub fn json_error(status: u16, message: &str) -> (r: Response)
    ensures
        r@ == error_view(status, message@),
{
    let mut body = Json::object();
    body.put("error", Json::text(message));
    json_response(status, &body)
}

/// What is done to a verification.
#[derive(PartialEq, Eq, Structural, Clone, Copy)]
pub enum FlowAction {
    Accept,
    StartSas,
    SasAccept,
    Confirm,
    Cancel,
}

/// A request to the proxy's own API.
pub enum AdminRoute {
    Status,
    Bootstrap,
    KeysExport,
    KeysImport,
    VerifyList,
    VerifyStart,
    VerifyShow { flow: String },
    VerifyAct { flow: String, action: FlowAction },
    Unknown,
}

/// A request to the proxy's own API.
pub enum AdminView {
    Status,
    Bootstrap,
    KeysExport,
    KeysImport,
    VerifyList,
    VerifyStart,
    VerifyShow { flow: Seq<char> },
    VerifyAct { flow: Seq<char>, action: FlowAction },
    Unknown,
}

impl AdminRoute {
    pub open spec fn view(&self) -> AdminView {
        match self {
            AdminRoute::Status => AdminView::Status,
            AdminRoute::Bootstrap => AdminView::Bootstrap,
            AdminRoute::KeysExport => AdminView::KeysExport,
            AdminRoute::KeysImport => AdminView::KeysImport,
            AdminRoute::VerifyList => AdminView::VerifyList,
            AdminRoute::VerifyStart => AdminView::VerifyStart,
            AdminRoute::VerifyShow { flow } => AdminView::VerifyShow { flow: flow@ },
            AdminRoute::VerifyAct { flow, action } => AdminView::VerifyAct {
                flow: flow@,
                action: *action,
            },
            AdminRoute::Unknown => AdminView::Unknown,
        }
    }
}

/// The name of an action in a path.
pub open spec fn action_name(action: FlowAction) -> Seq<char> {
    match action {
        FlowAction::Accept => "accept"@,
        FlowAction::StartSas => "start-sas"@,
        FlowAction::SasAccept => "sas-accept"@,
        FlowAction::Confirm => "confirm"@,
        FlowAction::Cancel => "cancel"@,
    }
}

/// The action of a name.
pub open spec fn action_of(name: Seq<char>) -> Option<FlowAction> {
    if name == "accept"@ {
        Some(FlowAction::Accept)
    } else if name == "start-sas"@ {
        Some(FlowAction::StartSas)
    } else if name == "sas-accept"@ {
        Some(FlowAction::SasAccept)
    } else if name == "confirm"@ {
        Some(FlowAction::Confirm)
    } else if name == "cancel"@ {
        Some(FlowAction::Cancel)
    } else {
        None
    }
}

/// The request that a method and a path below `/_ement/` make.
pub open spec fn admin_route(method: Seq<char>, sub: Seq<char>) -> AdminView {
    let s = text::split(sub, '/');
    let get = method == "GET"@;
    let post = method == "POST"@;
    if get && sub == "status"@ {
        AdminView::Status
    } else if post && sub == "bootstrap"@ {
        AdminView::Bootstrap
    } else if post && sub == "keys/export"@ {
        AdminView::KeysExport
    } else if post && sub == "keys/import"@ {
        AdminView::KeysImport
    } else if get && sub == "verify"@ {
        AdminView::VerifyList
    } else if post && sub == "verify/start"@ {
        AdminView::VerifyStart
    } else if get && s.len() == 2 && s[0] == "verify"@ {
        AdminView::VerifyShow { flow: percent::decoded_text(s[1]) }
    } else if post && s.len() == 3 && s[0] == "verify"@ {
        match action_of(s[2]) {
            Some(action) => AdminView::VerifyAct { flow: percent::decoded_text(s[1]), action },
            None => AdminView::Unknown,
        }
    } else {
        AdminView::Unknown
    }
}

fn find_action(name: &str) -> (r: Option<FlowAction>)
    ensures
        r == action_of(name@),
{
    if same_text(name, "accept") {
        Some(FlowAction::Accept)
    } else if same_text(name, "start-sas") {
        Some(FlowAction::StartSas)
    } else if same_text(name, "sas-accept") {
        Some(FlowAction::SasAccept)
    } else if same_text(name, "confirm") {
        Some(FlowAction::Confirm)
    } else if same_text(name, "cancel") {
        Some(FlowAction::Cancel)
    } else {
        None
    }
}

fn classify(method: &str, sub: &str) -> (r: AdminRoute)
    ensures
        r@ == admin_route(method@, sub@),
{
    let get = same_text(method, "GET");
    let post = same_text(method, "POST");
    let s = split_text(sub, '/');
    assert(text::texts(s@).len() == s@.len());
    if get && same_text(sub, "status") {
        AdminRoute::Status
    } else if post && same_text(sub, "bootstrap") {
        AdminRoute::Bootstrap
    } else if post && same_text(sub, "keys/export") {
        AdminRoute::KeysExport
    } else if post && same_text(sub, "keys/import") {
        AdminRoute::KeysImport
    } else if get && same_text(sub, "verify") {
        AdminRoute::VerifyList
    } else if post && same_text(sub, "verify/start") {
        AdminRoute::VerifyStart
    } else if get && s.len() == 2 && same_text(s[0].as_str(), "verify") {
        AdminRoute::VerifyShow { flow: dec(s[1].as_str()) }
    } else if post && s.len() == 3 && same_text(s[0].as_str(), "verify") {
        match find_action(s[2].as_str()) {
            Some(action) => AdminRoute::VerifyAct { flow: dec(s[1].as_str()), action },
            None => AdminRoute::Unknown,
        }
    } else {
        AdminRoute::Unknown
    }
}

/// Whether a request may use the API: where a token is configured, the request must carry
/// it.
pub open spec fn authorized(expected: Option<Seq<char>>, authorization: Option<Seq<u8>>) -> bool {
    expected is Some ==> proxy::header_token(authorization) == expected
}

/// A request to the API, or the response that refuses it.
pub open spec fn admin_result(r: Result<AdminRoute, Response>) -> Result<AdminView, ResponseView> {
    match r {
        Ok(route) => Ok(route@),
        Err(response) => Err(response@),
    }
}

/// What becomes of a request to the API.
pub open spec fn admitted(
    expected: Option<Seq<char>>,
    authorization: Option<Seq<u8>>,
    method: Seq<char>,
    sub: Seq<char>,
) -> Result<AdminView, ResponseView> {
    if !authorized(expected, authorization) {
        Err(error_view(401, "missing or invalid admin token"@))
    } else {
        match admin_route(method, sub) {
            AdminView::Unknown => Err(
                error_view(404, "unknown admin route: "@ + method + " "@ + sub),
            ),
            route => Ok(route),
        }
    }
}

/// Admits a request to the API: it must carry the configured token, if there is one, and
/// ask for something that the API has.
pub fn handle(
    expected: Option<&str>,
    authorization: Option<&[u8]>,
    method: &str,
    sub: &str,
) -> (r: Result<AdminRoute, Response>)
    ensures
        admin_result(r) == admitted(
            text::opt_str(expected),
            proxy::opt_slice(authorization),
            method@,
            sub@,
        ),
{
    match expected {
        Some(expected) => {
            let ok = match token_in_header(authorization) {
                Some(t) => same_text(t.as_str(), expected),
                None => false,
            };
            if !ok {
                return Err(json_error(401, "missing or invalid admin token"));
            }
        },
        None => {},
    }
    match classify(method, sub) {
        AdminRoute::Unknown => {
            let message = "unknown admin route: ".to_owned().concat(method).concat(" ").concat(sub);
            Err(json_error(404, message.as_str()))
        },
        route => Ok(route),
    }
}

/// Without the configured token nothing of the API can be used.
pub proof fn token_is_required(
    expected: Seq<char>,
    authorization: Option<Seq<u8>>,
    method: Seq<char>,
    sub: Seq<char>,
)
    requires
        proxy::header_token(authorization) != Some(expected),
    ensures
        admitted(Some(expected), authorization, method, sub) == Err::<AdminView, ResponseView>(
            error_view(401, "missing or invalid admin token"@),
        ),
{
}

/// The view of a JSON value, or the error in its place.
pub open spec fn body_result(r: Result<Json, ProxyError>) -> Result<JsonView, ProxyErrorView> {
    match r {
        Ok(j) => Ok(j@),
        Err(e) => Err(e@),
    }
}

/// The body of a request to the API. An empty one is null.
pub open spec fn admin_body(body: Result<Seq<u8>, Seq<char>>) -> Result<JsonView, ProxyErrorView> {
    match body {
        Err(e) => Err(ProxyErrorView::BadRequest("failed to read body: "@ + e)),
        Ok(bytes) => if bytes.len() == 0 {
            Ok(JsonView::Null)
        } else {
            match json_text::parsed(bytes) {
                Ok(j) => Ok(j),
                Err(e) => Err(ProxyErrorView::BadRequest("body is not JSON: "@ + e)),
            }
        },
    }
}

/// Reads the body of a request to the API.
pub fn read_json_body(body: Result<Vec<u8>, String>) -> (r: Result<Json, ProxyError>)
    ensures
        body_result(r) == admin_body(
            match body {
                Ok(b) => Ok(b@),
                Err(e) => Err(e@),
            },
        ),
{
    let bytes = match body {
        Ok(bytes) => bytes,
        Err(e) => {
            return Err(
                ProxyError::BadRequest("failed to read body: ".to_owned().concat(e.as_str())),
            );
        },
    };
    if bytes.len() == 0 {
        return Ok(Json::Null);
    }
    match parse_json(bytes.as_slice()) {
        Ok(j) => Ok(j),
        Err(e) => Err(ProxyError::BadRequest("body is not JSON: ".to_owned().concat(e.as_str()))),
    }
}

/// The users of some sessions.
pub open spec fn users_of<C>(
    sessions: Map<Seq<char>, Session<C>>,
    tokens: Seq<Seq<char>>,
) -> Seq<Seq<char>> {
    tokens.map_values(|t: Seq<char>| sessions[t].account.user_id@)
}

/// The first of some sessions that is the user's.
pub open spec fn session_of<C>(
    sessions: Map<Seq<char>, Session<C>>,
    tokens: Seq<Seq<char>>,
    user_id: Seq<char>,
) -> Option<Seq<char>>
    decreases tokens.len(),
{
    if tokens.len() == 0 {
        None
    } else if sessions[tokens[0]].account.user_id@ == user_id {
        Some(tokens[0])
    } else {
        session_of(sessions, tokens.skip(1), user_id)
    }
}

/// The session that a command is meant for, by its token: that of the given user, or else
/// the only one there is.
pub open spec fn resolved<C>(
    sessions: Map<Seq<char>, Session<C>>,
    user_id: Option<Seq<char>>,
) -> Result<Seq<char>, ResponseView> {
    let tokens = session::session_tokens(sessions);
    match user_id {
        Some(user_id) => match session_of(sessions, tokens, user_id) {
            Some(token) => Ok(token),
            None => Err(error_view(404, "no active session for "@ + user_id)),
        },
        None => if tokens.len() == 0 {
            Err(
                error_view(409, "no active sessions — connect ement through the proxy first"@),
            )
        } else if tokens.len() == 1 {
            Ok(tokens[0])
        } else {
            Err(
                error_view(
                    409,
                    "multiple sessions active, pass user_id: "@ + text::joined(
                        users_of(sessions, tokens),
                        ", "@,
                    ),
                ),
            )
        },
    }
}

/// A token, or the response in its place.
pub open spec fn token_result(r: Result<String, Response>) -> Result<Seq<char>, ResponseView> {
    match r {
        Ok(t) => Ok(t@),
        Err(response) => Err(response@),
    }
}

fn list_users<C>(sessions: &SessionManager<C>, tokens: &Vec<String>) -> (r: Vec<String>)
    requires
        forall|i: int| 0 <= i < tokens@.len() ==> sessions@.contains_key((#[trigger] tokens@[i])@),
    ensures
        text::texts(r@) == users_of(sessions@, text::texts(tokens@)),
{
    let mut out: Vec<String> = Vec::new();
    let mut i: usize = 0;
    while i < tokens.len()
        invariant
            i <= tokens@.len(),
            forall|i: int|
                0 <= i < tokens@.len() ==> sessions@.contains_key((#[trigger] tokens@[i])@),
            out@.len() == i,
            forall|k: int|
                0 <= k < i ==> (#[trigger] out@[k])@ == sessions@[tokens@[k]@].account.user_id@,
        decreases tokens@.len() - i,
    {
        let user = match sessions.get(tokens[i].as_str()) {
            Some(s) => s.account.user_id.clone(),
            None => String::new(),
        };
        out.push(user);
        i += 1;
    }
    assert(text::texts(out@) =~= users_of(sessions@, text::texts(tokens@)));
    out
}

/// Picks the session that a command is meant for: that of the given user, or else the only
/// active one. Gives its token.
pub fn resolve_session<C>(sessions: &SessionManager<C>, user_id: Option<&str>) -> (r: Result<
    String,
    Response,
>)
    ensures
        token_result(r) == resolved(sessions@, text::opt_str(user_id)),
        r matches Ok(t) ==> sessions@.contains_key(t@),
{
    let tokens = sessions.list();
    let ghost all = session::session_tokens(sessions@);
    proof {
        assert(text::texts(tokens@) == all);
        assert(all.len() == tokens@.len());
        assert forall|i: int| 0 <= i < tokens@.len() implies sessions@.contains_key(
            (#[trigger] tokens@[i])@,
        ) by {
            assert(all[i] == tokens@[i]@);
            assert(all.contains(all[i]));
        }
    }
    match user_id {
        Some(wanted) => {
            let mut i: usize = 0;
            assert(all.skip(0) =~= all);
            while i < tokens.len()
                invariant
                    i <= tokens@.len(),
                    user_id == Some(wanted),
                    all == text::texts(tokens@),
                    all == session::session_tokens(sessions@),
                    forall|i: int|
                        0 <= i < tokens@.len() ==> sessions@.contains_key(
                            (#[trigger] tokens@[i])@,
                        ),
                    session_of(sessions@, all, wanted@) == session_of(
                        sessions@,
                        all.skip(i as int),
                        wanted@,
                    ),
                decreases tokens@.len() - i,
            {
                proof {
                    assert(all.skip(i as int)[0] == tokens@[i as int]@);
                    assert(all.skip(i as int).skip(1) =~= all.skip(i + 1));
                }
                let mine = match sessions.get(tokens[i].as_str()) {
                    Some(s) => same_text(s.account.user_id.as_str(), wanted),
                    None => false,
                };
                if mine {
                    return Ok(tokens[i].clone());
                }
                i += 1;
            }
            let message = "no active session for ".to_owned().concat(wanted);
            Err(json_error(404, message.as_str()))
        },
        None => if tokens.len() == 0 {
            Err(json_error(409, "no active sessions — connect ement through the proxy first"))
        } else if tokens.len() == 1 {
            assert(all[0] == tokens@[0]@);
            Ok(tokens[0].clone())
        } else {
            let users = list_users(sessions, &tokens);
            let message = "multiple sessions active, pass user_id: ".to_owned().concat(
                join(&users, ", ").as_str(),
            );
            Err(json_error(409, message.as_str()))
        },
    }
}

/// What the status report says of a session.
pub struct SessionStatus {
    pub user_id: String,
    pub device_id: String,
    pub identity_keys: Json,
    pub has_master: bool,
    pub has_self_signing: bool,
    pub has_user_signing: bool,
    pub backup_enabled: bool,
    pub backup_version: Option<String>,
}

/// The status of a session as JSON.
pub open spec fn session_json(s: SessionStatus) -> JsonView {
    JsonView::empty_object().with("user_id"@, JsonView::Str(s.user_id@)).with(
        "device_id"@,
        JsonView::Str(s.device_id@),
    ).with("identity_keys"@, s.identity_keys@).with(
        "cross_signing"@,
        JsonView::empty_object().with("has_master"@, JsonView::Bool(s.has_master)).with(
            "has_self_signing"@,
            JsonView::Bool(s.has_self_signing),
        ).with("has_user_signing"@, JsonView::Bool(s.has_user_signing)),
    ).with(
        "backup"@,
        JsonView::empty_object().with("enabled"@, JsonView::Bool(s.backup_enabled)).with(
            "version"@,
            JsonView::opt_str(text::opt_text(s.backup_version)),
        ),
    )
}

/// The status report as JSON.
pub open spec fn status_json(
    version: Seq<char>,
    homeserver: Seq<char>,
    sessions: Seq<SessionStatus>,
) -> JsonView {
    JsonView::empty_object().with("version"@, JsonView::Str(version)).with(
        "homeserver"@,
        JsonView::Str(homeserver),
    ).with("sessions"@, JsonView::Array(sessions.map_values(|s: SessionStatus| session_json(s))))
}

fn session_status(s: &SessionStatus) -> (r: Json)
    ensures
        r@ == session_json(*s),
{
    let mut cross_signing = Json::object();
    cross_signing.put("has_master", Json::Bool(s.has_master));
    cross_signing.put("has_self_signing", Json::Bool(s.has_self_signing));
    cross_signing.put("has_user_signing", Json::Bool(s.has_user_signing));
    let mut backup = Json::object();
    backup.put("enabled", Json::Bool(s.backup_enabled));
    backup.put("version", Json::text_or_null(text::borrow_text(&s.backup_version)));
    let mut out = Json::object();
    out.put("user_id", Json::text(s.user_id.as_str()));
    out.put("device_id", Json::text(s.device_id.as_str()));
    out.put("identity_keys", s.identity_keys.copy());
    out.put("cross_signing", cross_signing);
    out.put("backup", backup);
    out
}

/// Reports on the proxy and its sessions.
pub fn status(version: &str, homeserver: &str, sessions: &Vec<SessionStatus>) -> (r: Response)
    ensures
        r@ == json_view(200, status_json(version@, homeserver@, sessions@)),
{
    let mut items: Vec<Json> = Vec::new();
    let mut i: usize = 0;
    while i < sessions.len()
        invariant
            i <= sessions@.len(),
            items@.len() == i,
            forall|k: int| 0 <= k < i ==> (#[trigger] items@[k])@ == session_json(sessions@[k]),
        decreases sessions@.len() - i,
    {
        items.push(session_status(&sessions[i]));
        i += 1;
    }
    proof {
        json::lemma_array_view(items@);
        assert(json::array_view(items@) =~= sessions@.map_values(
            |s: SessionStatus| session_json(s),
        ));
    }
    let mut body = Json::object();
    body.put("version", Json::text(version));
    body.put("homeserver", Json::text(homeserver));
    body.put("sessions", Json::Array(items));
    json_response(200, &body)
}

/// A text that a command needs, from the body of a request.
pub open spec fn needed(body: JsonView, key: Seq<char>) -> Result<Seq<char>, ProxyErrorView> {
    match body.get_text(key) {
        Some(t) => Ok(t),
        None => Err(ProxyErrorView::BadRequest("missing "@ + key)),
    }
}

/// A text that a command needs, from the body of a request.
pub fn needed_text(body: &Json, key: &str) -> (r: Result<String, ProxyError>)
    ensures
        match r {
            Ok(t) => needed(body@, key@) == Ok::<Seq<char>, ProxyErrorView>(t@),
            Err(e) => needed(body@, key@) == Err::<Seq<char>, ProxyErrorView>(e@),
        },
{
    match body.get_text(key) {
        Some(t) => Ok(t),
        None => Err(ProxyError::BadRequest("missing ".to_owned().concat(key))),
    }
}

/// Which session a command that sets the device up is meant for, and the recovery key.
pub struct BootstrapCommand {
    pub recovery_key: String,
    pub user_id: Option<String>,
}

/// Reads a command that sets the device up.
pub fn bootstrap(body: &Json) -> (r: Result<BootstrapCommand, ProxyError>)
    ensures
        match r {
            Ok(c) => body@.get_text("recovery_key"@) == Some(c.recovery_key@) && text::opt_text(
                c.user_id,
            ) == body@.get_text("user_id"@),
            Err(e) => body@.get_text("recovery_key"@) is None && e@ == ProxyErrorView::BadRequest(
                "missing "@ + "recovery_key"@,
            ),
        },
{
    match needed_text(body, "recovery_key") {
        Ok(recovery_key) => Ok(BootstrapCommand { recovery_key, user_id: body.get_text("user_id") }),
        Err(e) => Err(e),
    }
}

/// The response to a command: what it gave, or all that is known of why it failed.
pub open spec fn command_view(r: Result<JsonView, Seq<Seq<char>>>) -> ResponseView {
    match r {
        Ok(body) => json_view(200, body),
        Err(f) => error_view(500, text::joined(f, ": "@)),
    }
}

/// The response to a command.
pub fn command_response(result: Result<Json, Failure>) -> (r: Response)
    ensures
        r@ == command_view(crate::crypto::machine::json_result(result)),
{
    match result {
        Ok(body) => json_response(200, &body),
        Err(f) => json_error(500, f.chain_text().as_str()),
    }
}

/// Whose session a verification is in, and with whom.
pub struct VerifyTarget {
    pub user_id: Option<String>,
    pub with_user: Option<String>,
}

/// The value of a query's parameter, decoded.
pub open spec fn query_text(query: Option<Seq<char>>, prefix: Seq<char>) -> Option<Seq<char>> {
    match proxy::query_value(query, prefix) {
        Some(v) => Some(percent::decoded_text(v)),
        None => None,
    }
}

fn text_in_query(query: Option<&str>, prefix: &str) -> (r: Option<String>)
    ensures
        text::opt_text(r) == query_text(text::opt_str(query), prefix@),
{
    match value_in_query(query, prefix) {
        Some(v) => Some(dec(v.as_str())),
        None => None,
    }
}

/// Whose session a verification is in, and with whom, by the query of a request.
pub fn target_in_query(query: Option<&str>) -> (r: VerifyTarget)
    ensures
        text::opt_text(r.user_id) == query_text(text::opt_str(query), "user_id="@),
        text::opt_text(r.with_user) == query_text(text::opt_str(query), "with_user="@),
{
    VerifyTarget {
        user_id: text_in_query(query, "user_id="),
        with_user: text_in_query(query, "with_user="),
    }
}

/// Whose session a verification is in, and with whom, by the body of a request.
pub fn target_in_body(body: &Json) -> (r: VerifyTarget)
    ensures
        text::opt_text(r.user_id) == body@.get_text("user_id"@),
        text::opt_text(r.with_user) == body@.get_text("with_user"@),
{
    VerifyTarget { user_id: body.get_text("user_id"), with_user: body.get_text("with_user") }
}

/// The other user of a verification: the given one, or the user themselves.
pub open spec fn other_user(own: Seq<char>, with_user: Option<Seq<char>>) -> Result<
    Seq<char>,
    ProxyErrorView,
> {
    match with_user {
        Some(u) => if ids::user_id(u) {
            Ok(u)
        } else {
            Err(ProxyErrorView::BadRequest("invalid with_user: "@ + u))
        },
        None => Ok(own),
    }
}

/// The other user of a verification.
pub fn verify_with(own: &str, with_user: Option<String>) -> (r: Result<String, ProxyError>)
    ensures
        match r {
            Ok(u) => other_user(own@, text::opt_text(with_user)) == Ok::<
                Seq<char>,
                ProxyErrorView,
            >(u@),
            Err(e) => other_user(own@, text::opt_text(with_user)) == Err::<
                Seq<char>,
                ProxyErrorView,
            >(e@),
        },
{
    match with_user {
        Some(u) => if is_user_id(u.as_str()) {
            Ok(u)
        } else {
            Err(ProxyError::BadRequest("invalid with_user: ".to_owned().concat(u.as_str())))
        },
        None => Ok(own.to_owned()),
    }
}

} // verus!
