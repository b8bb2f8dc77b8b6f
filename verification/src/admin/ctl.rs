//! The command line that talks to a running proxy.

use crate::admin;
use crate::admin::FlowAction;
use crate::failure::Failure;
use crate::json::{Json, JsonView};
use crate::json_text;
use crate::json_text::write_pretty;
use crate::text;
use crate::text::{chars_of, join, text_of, trim_end};
use crate::wire;
use crate::wire::{is_success, status_text};
use vstd::prelude::*;
use vstd::string::*;

verus! {

/// The arguments of the command line. Paths are of the type `P`.
pub struct CtlArgs<P> {
    /// The base URL of the running proxy.
    pub proxy: String,
    pub command: CtlCommand<P>,
}

/// A command.
pub enum CtlCommand<P> {
    /// Show the proxy's status: sessions, cross-signing, backup.
    Status,
    /// Join the existing encrypted identity with the recovery key.
    Bootstrap {
        /// Whose session it is, where there are several.
        user_id: Option<String>,
        /// A file that holds the recovery key.
        recovery_key_file: Option<P>,
    },
    /// Verify devices by comparing emoji.
    Verify { action: VerifyAction },
    /// Export or import room keys.
    Keys { keys: KeysAction<P> },
}

/// What a verification command is about.
pub struct VerifyCommon {
    /// Whose session it is, where there are several.
    pub user_id: Option<String>,
    /// The other user; the user's own devices where there is none.
    pub with_user: Option<String>,
}

/// A verification command.
pub enum VerifyAction {
    /// List verifications.
    List { common: VerifyCommon },
    /// Start the verification of one of the user's own devices.
    Start { device: String, common: VerifyCommon },
    /// Show a verification, with the emoji once there are some.
    Show { flow: String, common: VerifyCommon },
    /// Accept a verification that the other side started.
    Accept { flow: String, common: VerifyCommon },
    /// Start comparing emoji.
    StartSas { flow: String, common: VerifyCommon },
    /// Accept a comparison of emoji that the other side started.
    SasAccept { flow: String, common: VerifyCommon },
    /// Confirm that the emoji match.
    Confirm { flow: String, common: VerifyCommon },
    /// Cancel a verification.
    Cancel { flow: String, common: VerifyCommon },
}

/// A command on room keys.
pub enum KeysAction<P> {
    /// Write all room keys to a file, protected by a passphrase.
    Export { file: P, user_id: Option<String> },
    /// Read room keys from such a file.
    Import { file: P, user_id: Option<String> },
}

/// A call of the proxy's own API: a path below it, and a body for those that have one.
pub struct AdminCall {
    pub path: String,
    pub body: Option<Json>,
}

/// What a call asks.
pub struct CallView {
    pub path: Seq<char>,
    pub body: Option<JsonView>,
}

impl AdminCall {
    pub open spec fn view(&self) -> CallView {
        CallView { path: self.path@, body: wire::body_view(self.body) }
    }
}

/// The object with a text under `key`, if there is one.
pub open spec fn with_text(j: JsonView, key: Seq<char>, value: Option<Seq<char>>) -> JsonView {
    match value {
        Some(v) => j.with(key, JsonView::Str(v)),
        None => j,
    }
}

fn put_text(j: &mut Json, key: &str, value: &Option<String>)
    ensures
        final(j)@ == with_text(old(j)@, key@, text::opt_text(*value)),
{
    match value {
        Some(v) => j.put(key, Json::text(v.as_str())),
        None => {},
    }
}

/// What a verification command is about, as a body.
pub open spec fn body_of(common: VerifyCommon) -> JsonView {
    with_text(
        with_text(JsonView::empty_object(), "user_id"@, text::opt_text(common.user_id)),
        "with_user"@,
        text::opt_text(common.with_user),
    )
}

/// What a verification command is about, as a body.
pub fn common_body(common: &VerifyCommon) -> (r: Json)
    ensures
        r@ == body_of(*common),
{
    let mut body = Json::object();
    put_text(&mut body, "user_id", &common.user_id);
    put_text(&mut body, "with_user", &common.with_user);
    body
}

/// The parameters of a query.
pub open spec fn query_parts(common: VerifyCommon) -> Seq<Seq<char>> {
    let first = match common.user_id {
        Some(u) => seq!["user_id="@ + u@],
        None => Seq::empty(),
    };
    match common.with_user {
        Some(u) => first.push("with_user="@ + u@),
        None => first,
    }
}

/// What a verification command is about, as a query.
pub open spec fn query_of(common: VerifyCommon) -> Seq<char> {
    if query_parts(common).len() == 0 {
        Seq::empty()
    } else {
        "?"@ + text::joined(query_parts(common), "&"@)
    }
}

/// What a verification command is about, as a query.
pub fn common_query(common: &VerifyCommon) -> (r: String)
    ensures
        r@ == query_of(*common),
{
    let mut parts: Vec<String> = Vec::new();
    assert(text::texts(parts@) =~= Seq::empty());
    match &common.user_id {
        Some(u) => {
            parts.push("user_id=".to_owned().concat(u.as_str()));
            assert(text::texts(parts@) =~= seq!["user_id="@ + u@]);
        },
        None => {},
    }
    match &common.with_user {
        Some(u) => {
            let ghost before = parts@;
            parts.push("with_user=".to_owned().concat(u.as_str()));
            assert(text::texts(parts@) =~= text::texts(before).push("with_user="@ + u@));
        },
        None => {},
    }
    assert(text::texts(parts@) == query_parts(*common));
    assert(text::texts(parts@).len() == parts@.len());
    if parts.len() == 0 {
        let none = String::new();
        assert(none@ =~= Seq::empty());
        none
    } else {
        "?".to_owned().concat(join(&parts, "&").as_str())
    }
}

/// A call that acts on a verification.
pub open spec fn flow_call(flow: Seq<char>, action: FlowAction, common: VerifyCommon) -> CallView {
    CallView {
        path: "verify/"@ + flow + "/"@ + admin::action_name(action),
        body: Some(body_of(common)),
    }
}

/// The call that a verification command makes.
pub open spec fn verify_call(action: VerifyAction) -> CallView {
    match action {
        VerifyAction::List { common } => CallView {
            path: "verify"@ + query_of(common),
            body: None,
        },
        VerifyAction::Start { device, common } => CallView {
            path: "verify/start"@,
            body: Some(body_of(common).with("device_id"@, JsonView::Str(device@))),
        },
        VerifyAction::Show { flow, common } => CallView {
            path: "verify/"@ + flow@ + query_of(common),
            body: None,
        },
        VerifyAction::Accept { flow, common } => flow_call(flow@, FlowAction::Accept, common),
        VerifyAction::StartSas { flow, common } => flow_call(flow@, FlowAction::StartSas, common),
        VerifyAction::SasAccept { flow, common } => flow_call(flow@, FlowAction::SasAccept, common),
        VerifyAction::Confirm { flow, common } => flow_call(flow@, FlowAction::Confirm, common),
        VerifyAction::Cancel { flow, common } => flow_call(flow@, FlowAction::Cancel, common),
    }
}

fn act(flow: &str, name: &str, common: &VerifyCommon) -> (r: AdminCall)
    ensures
        r@.path == "verify/"@ + flow@ + "/"@ + name@,
        r@.body == Some(body_of(*common)),
{
    AdminCall {
        path: "verify/".to_owned().concat(flow).concat("/").concat(name),
        body: Some(common_body(common)),
    }
}

/// The call that a verification command makes.
pub fn run_verify(action: &VerifyAction) -> (r: AdminCall)
    ensures
        r@ == verify_call(*action),
{
    match action {
        VerifyAction::List { common } => AdminCall {
            path: "verify".to_owned().concat(common_query(common).as_str()),
            body: None,
        },
        VerifyAction::Start { device, common } => {
            let mut body = common_body(common);
            body.put("device_id", Json::text(device.as_str()));
            AdminCall { path: "verify/start".to_owned(), body: Some(body) }
        },
        VerifyAction::Show { flow, common } => AdminCall {
            path: "verify/".to_owned().concat(flow.as_str()).concat(common_query(common).as_str()),
            body: None,
        },
        VerifyAction::Accept { flow, common } => act(flow.as_str(), "accept", common),
        VerifyAction::StartSas { flow, common } => act(flow.as_str(), "start-sas", common),
        VerifyAction::SasAccept { flow, common } => act(flow.as_str(), "sas-accept", common),
        VerifyAction::Confirm { flow, common } => act(flow.as_str(), "confirm", common),
        VerifyAction::Cancel { flow, common } => act(flow.as_str(), "cancel", common),
    }
}

/// The call that asks for the status.
pub fn status_call() -> (r: AdminCall)
    ensures
        r@ == (CallView { path: "status"@, body: None }),
{
    AdminCall { path: "status".to_owned(), body: None }
}

/// Whether a character has Unicode's `White_Space` property.
pub open spec fn whitespace(c: char) -> bool {
    let u = c as u32;
    ||| 0x09 <= u <= 0x0D
    ||| u == 0x20
    ||| u == 0x85
    ||| u == 0xA0
    ||| u == 0x1680
    ||| 0x2000 <= u <= 0x200A
    ||| u == 0x2028
    ||| u == 0x2029
    ||| u == 0x202F
    ||| u == 0x205F
    ||| u == 0x3000
}

/// A text without the whitespace that it starts with.
pub open spec fn without_leading(s: Seq<char>) -> Seq<char>
    decreases s.len(),
{
    if s.len() > 0 && whitespace(s[0]) {
        without_leading(s.skip(1))
    } else {
        s
    }
}

/// A text without the whitespace that it ends with.
pub open spec fn without_trailing(s: Seq<char>) -> Seq<char>
    decreases s.len(),
{
    if s.len() > 0 && whitespace(s.last()) {
        without_trailing(s.drop_last())
    } else {
        s
    }
}

/// `char::is_whitespace`: whether a character has the `White_Space` property.
pub assume_specification[ char::is_whitespace ](c: char) -> (r: bool)
    ensures
        r == whitespace(c),
;

/// The recovery key that a file holds, without the whitespace around it.
pub fn key_in_file(content: &str) -> (r: String)
    ensures
        r@ == without_trailing(without_leading(content@)),
{
    let cs = chars_of(content);
    let mut from: usize = 0;
    assert(cs@.skip(0) =~= cs@);
    while from < cs.len() && cs[from].is_whitespace()
        invariant
            from <= cs@.len(),
            cs@ == content@,
            without_leading(cs@.skip(from as int)) == without_leading(content@),
        decreases cs@.len() - from,
    {
        assert(cs@.skip(from as int).skip(1) =~= cs@.skip(from + 1));
        from += 1;
    }
    let mut to: usize = cs.len();
    assert(cs@.subrange(from as int, to as int) =~= cs@.skip(from as int));
    while from < to && cs[to - 1].is_whitespace()
        invariant
            from <= to <= cs@.len(),
            without_trailing(cs@.subrange(from as int, to as int)) == without_trailing(
                without_leading(content@),
            ),
        decreases to - from,
    {
        assert(cs@.subrange(from as int, to as int).drop_last() =~= cs@.subrange(
            from as int,
            to - 1,
        ));
        to -= 1;
    }
    text_of(&cs, from, to)
}

/// The call that sets the device up.
pub fn bootstrap_call(recovery_key: &str, user_id: &Option<String>) -> (r: AdminCall)
    ensures
        r@.path == "bootstrap"@,
        r@.body == Some(
            with_text(
                JsonView::empty_object().with("recovery_key"@, JsonView::Str(recovery_key@)),
                "user_id"@,
                text::opt_text(*user_id),
            ),
        ),
{
    let mut body = Json::object();
    body.put("recovery_key", Json::text(recovery_key));
    put_text(&mut body, "user_id", user_id);
    AdminCall { path: "bootstrap".to_owned(), body: Some(body) }
}

/// The call that exports room keys.
pub fn export_call(passphrase: &str, user_id: &Option<String>) -> (r: AdminCall)
    ensures
        r@.path == "keys/export"@,
        r@.body == Some(
            with_text(
                JsonView::empty_object().with("passphrase"@, JsonView::Str(passphrase@)),
                "user_id"@,
                text::opt_text(*user_id),
            ),
        ),
{
    let mut body = Json::object();
    body.put("passphrase", Json::text(passphrase));
    put_text(&mut body, "user_id", user_id);
    AdminCall { path: "keys/export".to_owned(), body: Some(body) }
}

/// The call that imports room keys.
pub fn import_call(passphrase: &str, export: &str, user_id: &Option<String>) -> (r: AdminCall)
    ensures
        r@.path == "keys/import"@,
        r@.body == Some(
            with_text(
                JsonView::empty_object().with("passphrase"@, JsonView::Str(passphrase@)).with(
                    "export"@,
                    JsonView::Str(export@),
                ),
                "user_id"@,
                text::opt_text(*user_id),
            ),
        ),
{
    let mut body = Json::object();
    body.put("passphrase", Json::text(passphrase));
    body.put("export", Json::text(export));
    put_text(&mut body, "user_id", user_id);
    AdminCall { path: "keys/import".to_owned(), body: Some(body) }
}

/// The emoji of a verification, laid out to be read.
pub open spec fn formatted_emoji(value: JsonView) -> Option<Seq<char>> {
    match value.get2("sas"@, "emoji"@) {
        Some(emoji) => emoji.get_text("formatted"@),
        None => None,
    }
}

/// What is printed of a verification: the emoji first, if there are some.
pub open spec fn flow_text(value: JsonView) -> Seq<char> {
    let rest = json_text::json_pretty(value) + "\n"@;
    match formatted_emoji(value) {
        Some(formatted) => "\nCompare these emoji with the other device:\n\n"@ + formatted + "\n\n"@
            + rest,
        None => rest,
    }
}

/// What is printed of a verification.
pub fn print_flow(value: &Json) -> (r: String)
    ensures
        r@ == flow_text(value@),
{
    let rest = write_pretty(value).concat("\n");
    let formatted = match value.get2("sas", "emoji") {
        Some(emoji) => emoji.get_text("formatted"),
        None => None,
    };
    match formatted {
        Some(formatted) => "\nCompare these emoji with the other device:\n\n".to_owned().concat(
            formatted.as_str(),
        ).concat("\n\n").concat(rest.as_str()),
        None => rest,
    }
}

/// What is printed once a verification command is through.
pub open spec fn verify_text(action: VerifyAction, value: JsonView) -> Seq<char> {
    match action {
        VerifyAction::List { .. } => json_text::json_pretty(value) + "\n"@,
        VerifyAction::Start { .. } => {
            let asked = flow_text(value)
                + "\nNow accept the request on the other device, then run:\n"@;
            match value.get_text("flow_id"@) {
                Some(flow) => asked + "  ement-e2ee ctl verify show "@ + flow + "\n"@,
                None => asked,
            }
        },
        _ => flow_text(value),
    }
}

/// What is printed once a verification command is through.
pub fn verify_output(action: &VerifyAction, value: &Json) -> (r: String)
    ensures
        r@ == verify_text(*action, value@),
{
    match action {
        VerifyAction::List { .. } => write_pretty(value).concat("\n"),
        VerifyAction::Start { .. } => {
            let asked = print_flow(value).concat(
                "\nNow accept the request on the other device, then run:\n",
            );
            match value.get_text("flow_id") {
                Some(flow) => asked.concat("  ement-e2ee ctl verify show ").concat(
                    flow.as_str(),
                ).concat("\n"),
                None => asked,
            }
        },
        _ => print_flow(value),
    }
}

/// A request that a client makes.
pub struct ClientRequest {
    pub method: String,
    pub url: String,
    pub body: Option<Json>,
}

/// A client of the proxy's own API.
pub struct Client {
    /// The URL of the API.
    pub base: String,
}

impl Client {
    /// The client of the proxy at a URL.
    pub fn new(proxy: &str) -> (r: Client)
        ensures
            r.base@ == text::trimmed_end(proxy@, '/') + "/_ement"@,
    {
        Client { base: trim_end(proxy, '/').concat("/_ement") }
    }

    /// The request that gets a path of the API.
    pub fn get(&self, path: &str) -> (r: ClientRequest)
        ensures
            r.method@ == "GET"@,
            r.url@ == self.base@ + "/"@ + path@,
            r.body is None,
    {
        ClientRequest {
            method: "GET".to_owned(),
            url: self.base.clone().concat("/").concat(path),
            body: None,
        }
    }

    /// The request that posts a body to a path of the API.
    pub fn post(&self, path: &str, body: Json) -> (r: ClientRequest)
        ensures
            r.method@ == "POST"@,
            r.url@ == self.base@ + "/"@ + path@,
            wire::body_view(r.body) == Some(body@),
    {
        ClientRequest {
            method: "POST".to_owned(),
            url: self.base.clone().concat("/").concat(path),
            body: Some(body),
        }
    }

    /// The request that makes a call: those with a body are posted.
    pub fn request(&self, call: AdminCall) -> (r: ClientRequest)
        ensures
            r.url@ == self.base@ + "/"@ + call@.path,
            wire::body_view(r.body) == call@.body,
            r.method@ == (if call@.body is Some {
                "POST"@
            } else {
                "GET"@
            }),
    {
        match call.body {
            Some(body) => self.post(call.path.as_str(), body),
            None => self.get(call.path.as_str()),
        }
    }

    /// Reads the response to a call. A body that is no JSON counts as null; a failure is
    /// reported with the message that the proxy gave.
    pub fn to_json(status: u16, body: Option<Json>) -> (r: Result<Json, Failure>)
        ensures
            ({
                let value = match body {
                    Some(b) => b@,
                    None => JsonView::Null,
                };
                if wire::success(status) {
                    r matches Ok(j) && j@ == value
                } else {
                    r matches Err(f) && f@ == seq![
                        wire::status_line(status) + ": "@ + (match value.get_text("error"@) {
                            Some(e) => e,
                            None => "unknown error"@,
                        }),
                    ]
                }
            }),
    {
        let value = match body {
            Some(b) => b,
            None => Json::Null,
        };
        if is_success(status) {
            return Ok(value);
        }
        let message = match value.get_text("error") {
            Some(e) => e,
            None => "unknown error".to_owned(),
        };
        let line = status_text(status).concat(": ").concat(message.as_str());
        Err(Failure::new(line.as_str()))
    }
}

/// The calls that a verification command makes are those that the API admits: the path of
/// a command on a flow without `/` leads to that action on that flow.
pub proof fn commands_reach_the_api(flow: Seq<char>, action: FlowAction, common: VerifyCommon)
    requires
        !flow.contains('/'),
    ensures
        admin::admin_route("POST"@, flow_call(flow, action, common).path)
            == (admin::AdminView::VerifyAct {
            flow: crate::percent::decoded_text(flow),
            action,
        }),
{
    let path = flow_call(flow, action, common).path;
    let name = admin::action_name(action);
    reveal_strlit("verify/");
    reveal_strlit("verify");
    reveal_strlit("/");
    reveal_strlit("accept");
    reveal_strlit("start-sas");
    reveal_strlit("sas-accept");
    reveal_strlit("confirm");
    reveal_strlit("cancel");
    reveal_strlit("POST");
    reveal_strlit("GET");
    reveal_strlit("bootstrap");
    reveal_strlit("keys/export");
    reveal_strlit("keys/import");
    reveal_strlit("verify/start");
    assert(!name.contains('/'));
    assert("verify/"@ =~= "verify"@ + seq!['/']);
    assert("/"@ =~= seq!['/']);
    assert(path =~= "verify"@ + seq!['/'] + (flow + seq!['/'] + name));
    text::lemma_split_join("verify"@, flow + seq!['/'] + name, '/');
    text::lemma_split_join(flow, name, '/');
    text::lemma_split_one(name, '/');
    let s = text::split(path, '/');
    assert(s =~= seq!["verify"@, flow, name]);
    assert("POST"@.len() == 4 && "GET"@.len() == 3);
    assert(path[0] == 'v');
    assert("bootstrap"@[0] == 'b' && "keys/export"@[0] == 'k' && "keys/import"@[0] == 'k');
    assert(path != "verify/start"@) by {
        if path == "verify/start"@ {
            assert("verify/start"@ =~= "verify"@ + seq!['/'] + "verify/start"@.skip(7));
            let rest = "verify/start"@.skip(7);
            assert(path.skip(7) =~= flow + seq!['/'] + name);
            assert((flow + seq!['/'] + name)[flow.len() as int] == '/');
            assert(rest[flow.len() as int] == '/');
            assert(forall|i: int| 0 <= i < rest.len() ==> rest[i] != '/');
        }
    }
    assert("accept"@[0] == 'a' && "start-sas"@[0] == 's' && "sas-accept"@[0] == 's'
        && "confirm"@[0] == 'c' && "cancel"@[0] == 'c');
    assert("start-sas"@.len() == 9 && "sas-accept"@.len() == 10 && "confirm"@.len() == 7
        && "cancel"@.len() == 6 && "accept"@.len() == 6);
}

/// The users that a verification command names reach the API, in a body and in a query
/// alike, provided that the query can hold them: they must not hold `&` or `%`.
pub proof fn users_reach_the_api(common: VerifyCommon)
    requires
        common.user_id matches Some(u) ==> !u@.contains('&') && !u@.contains('%'),
        common.with_user matches Some(u) ==> !u@.contains('&') && !u@.contains('%'),
    ensures
        body_of(common).get_text("user_id"@) == text::opt_text(common.user_id),
        body_of(common).get_text("with_user"@) == text::opt_text(common.with_user),
        query_parts(common).len() > 0 ==> {
            let query = Some(query_of(common).skip(1));
            &&& query_of(common)[0] == '?'
            &&& admin::query_text(query, "user_id="@) == text::opt_text(common.user_id)
            &&& admin::query_text(query, "with_user="@) == text::opt_text(common.with_user)
        },
{
    reveal_strlit("user_id");
    reveal_strlit("with_user");
    reveal_strlit("user_id=");
    reveal_strlit("with_user=");
    reveal_strlit("?");
    reveal_strlit("&");
    assert("user_id"@.len() == 7 && "with_user"@.len() == 9);
    assert("user_id="@[0] == 'u' && "with_user="@[0] == 'w');
    reveal_with_fuel(text::first_behind, 3);
    let parts = query_parts(common);
    if parts.len() > 0 {
        let q = query_of(common).skip(1);
        assert("?"@ =~= seq!['?'] && "&"@ =~= seq!['&']);
        assert(q =~= text::joined(parts, "&"@));
        match (common.user_id, common.with_user) {
            (Some(u), Some(w)) => {
                let a = "user_id="@ + u@;
                let b = "with_user="@ + w@;
                assert(parts =~= seq![a, b]);
                assert(parts.drop_last() =~= seq![a]);
                assert(text::joined(seq![a], "&"@) == a);
                assert(q =~= a + seq!['&'] + b);
                lemma_no_separator("user_id="@, u@);
                lemma_no_separator("with_user="@, w@);
                text::lemma_split_join(a, b, '&');
                text::lemma_split_one(b, '&');
                assert(text::split(q, '&') =~= seq![a, b]);
                lemma_parameter("user_id="@, u@);
                lemma_parameter("with_user="@, w@);
                assert(!"with_user="@.is_prefix_of(a)) by {
                    assert(a[0] == 'u');
                }
                assert(seq![a, b].skip(1) =~= seq![b]);
                assert(text::first_behind(seq![a, b], "with_user="@) == text::first_behind(
                    seq![b],
                    "with_user="@,
                ));
            },
            (Some(u), None) => {
                let a = "user_id="@ + u@;
                assert(parts =~= seq![a]);
                lemma_no_separator("user_id="@, u@);
                text::lemma_split_one(a, '&');
                lemma_parameter("user_id="@, u@);
                assert(!"with_user="@.is_prefix_of(a)) by {
                    assert(a[0] == 'u');
                }
                assert(seq![a].skip(1) =~= Seq::empty());
            },
            (None, Some(w)) => {
                let b = "with_user="@ + w@;
                assert(parts =~= seq![b]);
                lemma_no_separator("with_user="@, w@);
                text::lemma_split_one(b, '&');
                lemma_parameter("with_user="@, w@);
                assert(!"user_id="@.is_prefix_of(b)) by {
                    assert(b[0] == 'w');
                }
                assert(seq![b].skip(1) =~= Seq::empty());
            },
            (None, None) => {},
        }
    }
}

proof fn lemma_no_separator(name: Seq<char>, value: Seq<char>)
    requires
        !name.contains('&'),
        !value.contains('&'),
    ensures
        !(name + value).contains('&'),
{
    let whole = name + value;
    if whole.contains('&') {
        let i = choose|i: int| 0 <= i < whole.len() && whole[i] == '&';
        if i < name.len() {
            assert(name[i] == '&');
        } else {
            assert(value[i - name.len()] == '&');
        }
    }
}

proof fn lemma_parameter(name: Seq<char>, value: Seq<char>)
    requires
        !value.contains('%'),
    ensures
        text::behind(name + value, name) == Some(value),
        crate::percent::decoded_text(value) == value,
{
    assert(name.is_prefix_of(name + value));
    assert((name + value).skip(name.len() as int) =~= value);
    crate::percent::dec_of_plain(value);
}

} // verus!
