//! The proxy's own API, and the commands that use it.

use crate::admin;
use crate::admin::ctl;
use crate::admin::ctl::{VerifyAction, VerifyCommon};
use crate::admin::{AdminView, FlowAction, SessionStatus};
use crate::error::ProxyErrorView;
use crate::ids;
use crate::json::JsonView;
use crate::json_text;
use crate::laws::order;
use crate::laws::text as texts;
use crate::percent;
use crate::proxy;
use crate::session;
use crate::session::Session;
use crate::text;
use crate::wire::ResponseView;
use vstd::prelude::*;
use vstd::string::*;
use vstd::utf8::*;

verus! {

/// An answer is a status and JSON; an error is JSON with a message, and nothing else.
pub proof fn answers_are_json(status: u16, body: JsonView, message: Seq<char>)
    ensures
        admin::json_view(status, body) == (ResponseView {
            status,
            headers: seq![("content-type"@, encode_utf8("application/json"@))],
            body: encode_utf8(json_text::json_text(body)),
        }),
        exists|e: JsonView|
            #![trigger e.get("error"@)]
            e is Object && e.get("error"@) == Some(JsonView::Str(message)) && (forall|key: Seq<char>|
                key != "error"@ ==> #[trigger] e.get(key) is None) && admin::error_view(
                status,
                message,
            ) == admin::json_view(status, e),
{
    let e = JsonView::empty_object().with("error"@, JsonView::Str(message));
    assert(e.get("error"@) == Some(JsonView::Str(message)));
}

proof fn lemma_methods()
    ensures
        "GET"@ != "POST"@,
{
    reveal_strlit("GET");
    reveal_strlit("POST");
    assert("GET"@.len() == 3 && "POST"@.len() == 4);
}

proof fn lemma_paths()
    ensures
        "status"@ != "bootstrap"@,
        "status"@ != "keys/export"@,
        "status"@ != "keys/import"@,
        "status"@ != "verify"@,
        "status"@ != "verify/start"@,
        "bootstrap"@ != "keys/export"@,
        "bootstrap"@ != "keys/import"@,
        "bootstrap"@ != "verify"@,
        "bootstrap"@ != "verify/start"@,
        "keys/export"@ != "keys/import"@,
        "keys/export"@ != "verify/start"@,
        "keys/import"@ != "verify/start"@,
        "status"@[0] != 'v',
        "bootstrap"@[0] != 'v',
        "keys/export"@[0] != 'v',
        "keys/import"@[0] != 'v',
{
    reveal_strlit("status");
    reveal_strlit("bootstrap");
    reveal_strlit("keys/export");
    reveal_strlit("keys/import");
    reveal_strlit("verify");
    reveal_strlit("verify/start");
    assert("status"@.len() == 6 && "status"@[0] == 's');
    assert("bootstrap"@.len() == 9 && "bootstrap"@[0] == 'b');
    assert("keys/export"@.len() == 11 && "keys/export"@[0] == 'k' && "keys/export"@[5] == 'e');
    assert("keys/import"@.len() == 11 && "keys/import"@[0] == 'k' && "keys/import"@[5] == 'i');
    assert("verify"@.len() == 6 && "verify"@[0] == 'v');
    assert("verify/start"@.len() == 12 && "verify/start"@[0] == 'v');
}

/// Each request has its method and its path. Requests by other methods are not known.
pub proof fn fixed_paths_lead_to_requests(method: Seq<char>, sub: Seq<char>)
    ensures
        admin::admin_route(method, sub) is Status <==> method == "GET"@ && sub == "status"@,
        admin::admin_route(method, sub) is Bootstrap <==> method == "POST"@ && sub == "bootstrap"@,
        admin::admin_route(method, sub) is KeysExport <==> method == "POST"@ && sub
            == "keys/export"@,
        admin::admin_route(method, sub) is KeysImport <==> method == "POST"@ && sub
            == "keys/import"@,
        admin::admin_route(method, sub) is VerifyList <==> method == "GET"@ && sub == "verify"@,
        admin::admin_route(method, sub) is VerifyStart <==> method == "POST"@ && sub
            == "verify/start"@,
        admin::admin_route(method, sub) is VerifyShow ==> method == "GET"@,
        admin::admin_route(method, sub) is VerifyAct ==> method == "POST"@,
        method != "GET"@ && method != "POST"@ ==> admin::admin_route(method, sub) is Unknown,
{
    lemma_methods();
    lemma_paths();
}

/// A verification is shown by the path that names it, whatever characters its ID holds; and
/// it is acted upon by that path with the action behind.
pub proof fn paths_name_verifications(flow: Seq<char>)
    ensures
        admin::admin_route("GET"@, "verify/"@ + percent::encoded_text(flow))
            == (AdminView::VerifyShow { flow }),
        admin::admin_route("POST"@, "verify/"@ + percent::encoded_text(flow) + "/accept"@)
            == (AdminView::VerifyAct { flow, action: FlowAction::Accept }),
        admin::admin_route("POST"@, "verify/"@ + percent::encoded_text(flow) + "/start-sas"@)
            == (AdminView::VerifyAct { flow, action: FlowAction::StartSas }),
        admin::admin_route("POST"@, "verify/"@ + percent::encoded_text(flow) + "/sas-accept"@)
            == (AdminView::VerifyAct { flow, action: FlowAction::SasAccept }),
        admin::admin_route("POST"@, "verify/"@ + percent::encoded_text(flow) + "/confirm"@)
            == (AdminView::VerifyAct { flow, action: FlowAction::Confirm }),
        admin::admin_route("POST"@, "verify/"@ + percent::encoded_text(flow) + "/cancel"@)
            == (AdminView::VerifyAct { flow, action: FlowAction::Cancel }),
{
    let e = percent::encoded_text(flow);
    percent::dec_of_enc(flow);
    percent::enc_is_one_segment(flow);
    assert(!e.contains('/'));
    lemma_methods();
    lemma_paths();
    reveal_strlit("verify/");
    reveal_strlit("verify");
    assert("verify/"@ =~= "verify"@ + seq!['/']);
    text::lemma_split_join("verify"@, e, '/');
    text::lemma_split_one(e, '/');
    let shown = "verify/"@ + e;
    assert(shown =~= "verify"@ + seq!['/'] + e);
    assert(text::split(shown, '/') =~= seq!["verify"@, e]);
    assert("verify"@.len() == 6 && "verify/"@.len() == 7);
    assert(shown[0] == "verify/"@[0] && "verify/"@[0] == 'v');
    assert(shown != "status"@);
    assert(shown.len() >= 7);
    lemma_action(e, "/accept"@, FlowAction::Accept);
    lemma_action(e, "/start-sas"@, FlowAction::StartSas);
    lemma_action(e, "/sas-accept"@, FlowAction::SasAccept);
    lemma_action(e, "/confirm"@, FlowAction::Confirm);
    lemma_action(e, "/cancel"@, FlowAction::Cancel);
}

/// The path of an action on a flow.
proof fn lemma_action(e: Seq<char>, tail: Seq<char>, action: FlowAction)
    requires
        !e.contains('/'),
        match action {
            FlowAction::Accept => tail == "/accept"@,
            FlowAction::StartSas => tail == "/start-sas"@,
            FlowAction::SasAccept => tail == "/sas-accept"@,
            FlowAction::Confirm => tail == "/confirm"@,
            FlowAction::Cancel => tail == "/cancel"@,
        },
    ensures
        admin::admin_route("POST"@, "verify/"@ + e + tail) == (AdminView::VerifyAct {
            flow: percent::decoded_text(e),
            action,
        }),
{
    reveal_strlit("/");
    reveal_strlit("/accept");
    reveal_strlit("accept");
    reveal_strlit("/start-sas");
    reveal_strlit("start-sas");
    reveal_strlit("/sas-accept");
    reveal_strlit("sas-accept");
    reveal_strlit("/confirm");
    reveal_strlit("confirm");
    reveal_strlit("/cancel");
    reveal_strlit("cancel");
    assert("/accept"@ =~= "/"@ + "accept"@);
    assert("/start-sas"@ =~= "/"@ + "start-sas"@);
    assert("/sas-accept"@ =~= "/"@ + "sas-accept"@);
    assert("/confirm"@ =~= "/"@ + "confirm"@);
    assert("/cancel"@ =~= "/"@ + "cancel"@);
    let common = VerifyCommon { user_id: None, with_user: None };
    ctl::commands_reach_the_api(e, action, common);
    assert("verify/"@ + e + tail =~= "verify/"@ + e + "/"@ + admin::action_name(action));
}

/// Where a token is set, only requests that carry it are admitted; where none is, all are.
/// What is admitted is what the path says.
pub proof fn requests_are_admitted(
    expected: Option<Seq<char>>,
    authorization: Option<Seq<u8>>,
    method: Seq<char>,
    sub: Seq<char>,
)
    ensures
        ({
            let r = admin::admitted(expected, authorization, method, sub);
            let carries = expected matches Some(t) ==> proxy::header_token(authorization) == Some(
                t,
            );
            &&& !carries ==> (r matches Err(response) && response.status == 401)
            &&& carries && !(admin::admin_route(method, sub) is Unknown) ==> r == Ok::<
                AdminView,
                ResponseView,
            >(admin::admin_route(method, sub))
            &&& carries && admin::admin_route(method, sub) is Unknown ==> (r matches Err(response)
                && response.status == 404)
        }),
{
}

/// A body is the JSON that it is, and null where there is none; what is no JSON is the
/// client's mistake.
pub proof fn bodies_are_read(bytes: Seq<u8>, why: Seq<char>)
    ensures
        bytes.len() == 0 ==> admin::admin_body(Ok(bytes)) == Ok::<JsonView, ProxyErrorView>(
            JsonView::Null,
        ),
        bytes.len() > 0 ==> match json_text::parsed(bytes) {
            Ok(j) => admin::admin_body(Ok(bytes)) == Ok::<JsonView, ProxyErrorView>(j),
            Err(e) => admin::admin_body(Ok(bytes)) matches Err(ProxyErrorView::BadRequest(m))
                && e.is_suffix_of(m),
        },
        admin::admin_body(Err(why)) matches Err(ProxyErrorView::BadRequest(m)) && why.is_suffix_of(
            m,
        ),
{
}

proof fn lemma_session_of<C>(
    sessions: Map<Seq<char>, Session<C>>,
    tokens: Seq<Seq<char>>,
    user: Seq<char>,
)
    ensures
        match admin::session_of(sessions, tokens, user) {
            Some(t) => tokens.contains(t) && sessions[t].account.user_id@ == user,
            None => forall|i: int|
                0 <= i < tokens.len() ==> sessions[#[trigger] tokens[i]].account.user_id@ != user,
        },
    decreases tokens.len(),
{
    if tokens.len() > 0 {
        let rest = tokens.skip(1);
        lemma_session_of(sessions, rest, user);
        if sessions[tokens[0]].account.user_id@ != user {
            match admin::session_of(sessions, tokens, user) {
                Some(t) => {
                    let i = choose|i: int| 0 <= i < rest.len() && rest[i] == t;
                    assert(tokens[i + 1] == t);
                },
                None => {
                    assert forall|i: int| 0 <= i < tokens.len() implies sessions[
                        #[trigger] tokens[i]
                    ].account.user_id@ != user by {
                        if i > 0 {
                            assert(rest[i - 1] == tokens[i]);
                        }
                    }
                },
            }
        } else {
            assert(tokens[0] == admin::session_of(sessions, tokens, user)->0);
        }
    }
}

/// A command that names a user goes to a session of that user, wherever there is one; one
/// that names none goes to the only session there is. All others are told why not.
pub proof fn commands_find_their_session<C>(
    sessions: Map<Seq<char>, Session<C>>,
    user: Seq<char>,
    token: Seq<char>,
)
    requires
        sessions.dom().finite(),
    ensures
        admin::resolved(sessions, Some(user)) matches Ok(t) ==> sessions.contains_key(t)
            && sessions[t].account.user_id@ == user,
        sessions.contains_key(token) && sessions[token].account.user_id@ == user
            ==> admin::resolved(sessions, Some(user)) is Ok,
        admin::resolved(sessions, Some(user)) matches Err(r) ==> r.status == 404,
        admin::resolved(sessions, None) matches Ok(t) ==> sessions.contains_key(t) && (
        sessions.contains_key(token) ==> token == t),
        sessions.contains_key(token) && (forall|other: Seq<char>| #[trigger]
            sessions.contains_key(other) ==> other == token) ==> admin::resolved(sessions, None)
            == Ok::<Seq<char>, ResponseView>(token),
        admin::resolved(sessions, None) matches Err(r) ==> r.status == 409,
{
    order::order_lists_all(sessions.dom());
    let tokens = session::session_tokens(sessions);
    lemma_session_of(sessions, tokens, user);
    assert(tokens.contains(token) <==> sessions.dom().contains(token));
    if sessions.contains_key(token) {
        let i = choose|i: int| 0 <= i < tokens.len() && tokens[i] == token;
        assert(tokens[i] == token);
        if forall|other: Seq<char>| #[trigger] sessions.contains_key(other) ==> other == token {
            if tokens.len() > 1 {
                assert(tokens.contains(tokens[0]) && tokens.contains(tokens[1]));
                assert(sessions.dom().contains(tokens[0]) && sessions.dom().contains(tokens[1]));
                assert(sessions.contains_key(tokens[0]) && sessions.contains_key(tokens[1]));
                assert(tokens[0] == tokens[1]);
            }
        }
    }
    match admin::resolved(sessions, Some(user)) {
        Ok(t) => {
            assert(tokens.contains(t) <==> sessions.dom().contains(t));
        },
        Err(_) => {},
    }
    match admin::resolved(sessions, None) {
        Ok(t) => {
            assert(tokens[0] == t);
            assert(tokens.contains(t));
            assert(sessions.dom().contains(t));
        },
        Err(_) => {},
    }
}

proof fn lemma_status_words()
    ensures
        "user_id"@ != "device_id"@,
        "user_id"@ != "identity_keys"@,
        "user_id"@ != "cross_signing"@,
        "user_id"@ != "backup"@,
        "device_id"@ != "identity_keys"@,
        "device_id"@ != "cross_signing"@,
        "device_id"@ != "backup"@,
        "identity_keys"@ != "cross_signing"@,
        "identity_keys"@ != "backup"@,
        "cross_signing"@ != "backup"@,
        "has_master"@ != "has_self_signing"@,
        "has_master"@ != "has_user_signing"@,
        "has_self_signing"@ != "has_user_signing"@,
        "enabled"@ != "version"@,
        "version"@ != "homeserver"@,
        "version"@ != "sessions"@,
        "homeserver"@ != "sessions"@,
{
    reveal_strlit("user_id");
    reveal_strlit("device_id");
    reveal_strlit("identity_keys");
    reveal_strlit("cross_signing");
    reveal_strlit("backup");
    reveal_strlit("has_master");
    reveal_strlit("has_self_signing");
    reveal_strlit("has_user_signing");
    reveal_strlit("enabled");
    reveal_strlit("version");
    reveal_strlit("homeserver");
    reveal_strlit("sessions");
    assert("user_id"@.len() == 7 && "device_id"@.len() == 9 && "backup"@.len() == 6);
    assert("identity_keys"@.len() == 13 && "identity_keys"@[0] == 'i');
    assert("cross_signing"@.len() == 13 && "cross_signing"@[0] == 'c');
    assert("has_master"@.len() == 10);
    assert("has_self_signing"@.len() == 16 && "has_self_signing"@[4] == 's');
    assert("has_user_signing"@.len() == 16 && "has_user_signing"@[4] == 'u');
    assert("enabled"@.len() == 7 && "enabled"@[0] == 'e');
    assert("version"@.len() == 7 && "version"@[0] == 'v');
    assert("homeserver"@.len() == 10 && "sessions"@.len() == 8);
}

/// The status of a session tells whose it is, its keys, which cross-signing keys it has, and
/// how it stands with the backup.
pub proof fn session_status_is_shown(s: SessionStatus, key: Seq<char>)
    ensures
        ({
            let out = admin::session_json(s);
            &&& out is Object
            &&& out.get("user_id"@) == Some(JsonView::Str(s.user_id@))
            &&& out.get("device_id"@) == Some(JsonView::Str(s.device_id@))
            &&& out.get("identity_keys"@) == Some(s.identity_keys@)
            &&& out.get2("cross_signing"@, "has_master"@) == Some(JsonView::Bool(s.has_master))
            &&& out.get2("cross_signing"@, "has_self_signing"@) == Some(
                JsonView::Bool(s.has_self_signing),
            )
            &&& out.get2("cross_signing"@, "has_user_signing"@) == Some(
                JsonView::Bool(s.has_user_signing),
            )
            &&& out.get2("backup"@, "enabled"@) == Some(JsonView::Bool(s.backup_enabled))
            &&& out.get2("backup"@, "version"@) == Some(
                match s.backup_version {
                    Some(v) => JsonView::Str(v@),
                    None => JsonView::Null,
                },
            )
            &&& key != "user_id"@ && key != "device_id"@ && key != "identity_keys"@ && key
                != "cross_signing"@ && key != "backup"@ ==> out.get(key) is None
        }),
{
    lemma_status_words();
}

/// The status of the proxy tells its version, its homeserver, and all sessions.
pub proof fn status_is_shown(
    version: Seq<char>,
    homeserver: Seq<char>,
    sessions: Seq<SessionStatus>,
    key: Seq<char>,
)
    ensures
        ({
            let out = admin::status_json(version, homeserver, sessions);
            &&& out is Object
            &&& out.get("version"@) == Some(JsonView::Str(version))
            &&& out.get("homeserver"@) == Some(JsonView::Str(homeserver))
            &&& key != "version"@ && key != "homeserver"@ && key != "sessions"@ ==> out.get(key)
                is None
            &&& out.get("sessions"@) matches Some(JsonView::Array(items))
            &&& items.len() == sessions.len()
            &&& forall|i: int|
                0 <= i < sessions.len() ==> items[i] == admin::session_json(#[trigger] sessions[i])
        }),
{
    lemma_status_words();
}

/// A text that a request needs is the one under its name; without it, the request is the
/// client's mistake.
pub proof fn needed_texts_are_read(body: JsonView, key: Seq<char>)
    ensures
        match body.get(key) {
            Some(JsonView::Str(t)) => admin::needed(body, key) == Ok::<Seq<char>, ProxyErrorView>(
                t,
            ),
            _ => admin::needed(body, key) matches Err(ProxyErrorView::BadRequest(m))
                && key.is_suffix_of(m),
        },
{
}

/// What comes of a command is its result, or an error with everything that led to it.
pub proof fn outcomes_are_answered(body: JsonView, f: Seq<Seq<char>>)
    ensures
        admin::command_view(Ok(body)) == admin::json_view(200, body),
        admin::command_view(Err(f)) == admin::error_view(500, text::joined(f, ": "@)),
{
}

/// The other side of a verification is the user that was named, if it is one, and otherwise
/// the user's own account.
pub proof fn verification_has_two_sides(own: Seq<char>, other: Seq<char>)
    ensures
        admin::other_user(own, None) == Ok::<Seq<char>, ProxyErrorView>(own),
        ids::user_id(other) ==> admin::other_user(own, Some(other)) == Ok::<
            Seq<char>,
            ProxyErrorView,
        >(other),
        !ids::user_id(other) ==> (admin::other_user(own, Some(other)) matches Err(
            ProxyErrorView::BadRequest(_),
        )),
{
}

/// A parameter of a query is read with its escapes undone.
pub proof fn parameters_are_decoded(name: Seq<char>, value: Seq<char>)
    requires
        !name.contains('&'),
    ensures
        admin::query_text(Some(name + percent::encoded_text(value)), name) == Some(value),
        admin::query_text(None, name) is None,
{
    let e = percent::encoded_text(value);
    percent::dec_of_enc(value);
    percent::enc_is_one_segment(value);
    let q = name + e;
    assert(!q.contains('&')) by {
        if q.contains('&') {
            let i = choose|i: int| 0 <= i < q.len() && q[i] == '&';
            if i < name.len() {
                assert(name[i] == '&');
            } else {
                assert(e[i - name.len()] == '&');
            }
        }
    }
    text::lemma_split_one(q, '&');
    texts::prefix_is_stripped(q, name, e);
    assert(text::first_behind(seq![q], name) == Some(e));
}

/// A verification command asks for what it says: lists and single flows are asked for by
/// their paths, with the users as a query; a start names the device; and an action goes to
/// its flow with the users in its body.
pub proof fn commands_make_their_calls(action: VerifyAction, key: Seq<char>)
    ensures
        ({
            let call = ctl::verify_call(action);
            match action {
                VerifyAction::List { common } => call.path == "verify"@ + ctl::query_of(common)
                    && call.body is None,
                VerifyAction::Show { flow, common } => call.path == "verify/"@ + flow@
                    + ctl::query_of(common) && call.body is None,
                VerifyAction::Start { device, common } => {
                    &&& call.path == "verify/start"@
                    &&& call.body matches Some(b)
                    &&& b is Object
                    &&& b.get("device_id"@) == Some(JsonView::Str(device@))
                    &&& key != "device_id"@ ==> b.get(key) == ctl::body_of(common).get(key)
                },
                VerifyAction::Accept { flow, common } => call.path == "verify/"@ + flow@ + "/"@
                    + "accept"@ && call.body == Some(ctl::body_of(common)),
                VerifyAction::StartSas { flow, common } => call.path == "verify/"@ + flow@ + "/"@
                    + "start-sas"@ && call.body == Some(ctl::body_of(common)),
                VerifyAction::SasAccept { flow, common } => call.path == "verify/"@ + flow@ + "/"@
                    + "sas-accept"@ && call.body == Some(ctl::body_of(common)),
                VerifyAction::Confirm { flow, common } => call.path == "verify/"@ + flow@ + "/"@
                    + "confirm"@ && call.body == Some(ctl::body_of(common)),
                VerifyAction::Cancel { flow, common } => call.path == "verify/"@ + flow@ + "/"@
                    + "cancel"@ && call.body == Some(ctl::body_of(common)),
            }
        }),
{
}

/// The users that a command names stand in its body, each under its own name, and nothing
/// else does.
pub proof fn bodies_name_users(common: VerifyCommon, key: Seq<char>)
    ensures
        ({
            let body = ctl::body_of(common);
            &&& body is Object
            &&& body.get("user_id"@) == match common.user_id {
                Some(u) => Some(JsonView::Str(u@)),
                None => None,
            }
            &&& body.get("with_user"@) == match common.with_user {
                Some(u) => Some(JsonView::Str(u@)),
                None => None,
            }
            &&& key != "user_id"@ && key != "with_user"@ ==> body.get(key) is None
        }),
{
    reveal_strlit("user_id");
    reveal_strlit("with_user");
    assert("user_id"@.len() == 7 && "with_user"@.len() == 9);
}

/// A key that is read from a file is what the file holds but for the whitespace around it.
pub proof fn key_is_trimmed(s: Seq<char>)
    ensures
        ({
            let key = ctl::without_trailing(ctl::without_leading(s));
            &&& exists|a: int, b: int|
                #![trigger s.subrange(a, b)]
                0 <= a <= b <= s.len() && key == s.subrange(a, b) && (forall|i: int|
                    0 <= i < a || b <= i < s.len() ==> ctl::whitespace(#[trigger] s[i]))
            &&& key.len() > 0 ==> !ctl::whitespace(key[0]) && !ctl::whitespace(key.last())
        }),
{
    let a = lemma_leading(s);
    let t = s.skip(a);
    let n = lemma_trailing(t);
    let b = a + n;
    assert(t.take(n) =~= s.subrange(a, b));
    assert forall|i: int| 0 <= i < a || b <= i < s.len() implies ctl::whitespace(
        #[trigger] s[i],
    ) by {
        if i >= b {
            assert(t[i - a] == s[i]);
        }
    }
    let key = ctl::without_trailing(ctl::without_leading(s));
    if key.len() > 0 {
        assert(key[0] == t[0]);
    }
}

proof fn lemma_leading(s: Seq<char>) -> (a: int)
    ensures
        0 <= a <= s.len(),
        ctl::without_leading(s) == s.skip(a),
        forall|i: int| 0 <= i < a ==> ctl::whitespace(#[trigger] s[i]),
        a < s.len() ==> !ctl::whitespace(s[a]),
    decreases s.len(),
{
    if s.len() > 0 && ctl::whitespace(s[0]) {
        let rest = s.skip(1);
        let a = lemma_leading(rest);
        assert(rest.skip(a) =~= s.skip(a + 1));
        assert forall|i: int| 0 <= i < a + 1 implies ctl::whitespace(#[trigger] s[i]) by {
            if i > 0 {
                assert(rest[i - 1] == s[i]);
            }
        }
        a + 1
    } else {
        assert(s.skip(0) =~= s);
        0
    }
}

proof fn lemma_trailing(s: Seq<char>) -> (n: int)
    ensures
        0 <= n <= s.len(),
        ctl::without_trailing(s) == s.take(n),
        forall|i: int| n <= i < s.len() ==> ctl::whitespace(#[trigger] s[i]),
        n > 0 ==> !ctl::whitespace(s[n - 1]),
    decreases s.len(),
{
    if s.len() > 0 && ctl::whitespace(s.last()) {
        let front = s.drop_last();
        let n = lemma_trailing(front);
        assert(front.take(n) =~= s.take(n));
        assert forall|i: int| n <= i < s.len() implies ctl::whitespace(#[trigger] s[i]) by {
            if i < front.len() {
                assert(front[i] == s[i]);
            }
        }
        n
    } else {
        assert(s.take(s.len() as int) =~= s);
        s.len() as int
    }
}

/// What is printed of a verification ends with all that is known of it; the emoji, where
/// there are some, come before.
pub proof fn verification_is_printed(value: JsonView)
    ensures
        (json_text::json_pretty(value) + "\n"@).is_suffix_of(ctl::flow_text(value)),
        match value.get2("sas"@, "emoji"@) {
            Some(emoji) => match emoji.get("formatted"@) {
                Some(JsonView::Str(f)) => ctl::flow_text(value)
                    == "\nCompare these emoji with the other device:\n\n"@ + f + "\n\n"@ + (
                json_text::json_pretty(value) + "\n"@),
                _ => ctl::flow_text(value) == json_text::json_pretty(value) + "\n"@,
            },
            None => ctl::flow_text(value) == json_text::json_pretty(value) + "\n"@,
        },
{
    let rest = json_text::json_pretty(value) + "\n"@;
    let all = ctl::flow_text(value);
    assert(all.skip(all.len() - rest.len()) =~= rest);
}

/// What a command prints: lists as they are, single verifications with their emoji, and
/// behind a start how to go on, with the ID of the flow where it is known.
pub proof fn commands_print_their_outcome(action: VerifyAction, value: JsonView)
    ensures
        ({
            let out = ctl::verify_text(action, value);
            match action {
                VerifyAction::List { .. } => out == json_text::json_pretty(value) + "\n"@,
                VerifyAction::Start { .. } => {
                    let asked = ctl::flow_text(value)
                        + "\nNow accept the request on the other device, then run:\n"@;
                    out == match value.get("flow_id"@) {
                        Some(JsonView::Str(flow)) => asked + "  ement-e2ee ctl verify show "@ + flow
                            + "\n"@,
                        _ => asked,
                    }
                },
                _ => out == ctl::flow_text(value),
            }
        }),
{
}

/// What is acted upon is the flow that the path names, by an action that is known.
pub proof fn only_known_actions_are_taken(method: Seq<char>, sub: Seq<char>)
    ensures
        admin::admin_route(method, sub) matches AdminView::VerifyAct { flow, action } ==> ({
            let s = text::split(sub, '/');
            &&& s.len() == 3
            &&& s[0] == "verify"@
            &&& flow == percent::decoded_text(s[1])
            &&& s[2] == match action {
                FlowAction::Accept => "accept"@,
                FlowAction::StartSas => "start-sas"@,
                FlowAction::SasAccept => "sas-accept"@,
                FlowAction::Confirm => "confirm"@,
                FlowAction::Cancel => "cancel"@,
            }
        }),
        admin::admin_route(method, sub) matches AdminView::VerifyShow { flow } ==> ({
            let s = text::split(sub, '/');
            &&& s.len() == 2
            &&& s[0] == "verify"@
            &&& flow == percent::decoded_text(s[1])
        }),
{
}

/// Where there are several sessions, a command that names no user is told whose they are.
pub proof fn users_are_listed<C>(sessions: Map<Seq<char>, Session<C>>, tokens: Seq<Seq<char>>)
    ensures
        admin::users_of(sessions, tokens).len() == tokens.len(),
        forall|i: int|
            0 <= i < tokens.len() ==> #[trigger] admin::users_of(sessions, tokens)[i]
                == sessions[tokens[i]].account.user_id@,
{
}

} // verus!
