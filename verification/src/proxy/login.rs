//! Logins, which start sessions.

use crate::error::{ProxyError, ProxyErrorView};
use crate::failure::Failure;
use crate::json_text;
use crate::json_text::parse_json;
use crate::session;
use crate::session::{AccountContext, AccountView, SessionManager};
use crate::wire;
use crate::wire::is_success;
use vstd::prelude::*;
use vstd::string::*;

verus! {

/// How many bytes the body of a login may have.
pub const MAX_LOGIN_BYTES: usize = 1_048_576;

/// What a login leads to.
pub enum LoginOutcome {
    /// A session can be started right away.
    Start(AccountContext),
    /// The session is there already.
    Known(AccountContext),
    /// It succeeded, but no session can be started yet. It is once the token is used.
    Later(Failure),
    /// It did not succeed.
    Refused,
}

/// What a login leads to.
pub enum LoginView {
    Start(AccountView),
    Known(AccountView),
    Later(Seq<Seq<char>>),
    Refused,
}

impl LoginOutcome {
    pub open spec fn view(&self) -> LoginView {
        match self {
            LoginOutcome::Start(a) => LoginView::Start(a@),
            LoginOutcome::Known(a) => LoginView::Known(a@),
            LoginOutcome::Later(f) => LoginView::Later(f@),
            LoginOutcome::Refused => LoginView::Refused,
        }
    }
}

/// What a login leads to, by the homeserver's reply and the tokens that have sessions.
pub open spec fn login_outcome(known: Set<Seq<char>>, status: u16, bytes: Seq<u8>) -> LoginView {
    if !wire::success(status) {
        LoginView::Refused
    } else {
        match json_text::parsed(bytes) {
            Ok(body) => match session::login_account(body) {
                Ok(account) => if known.contains(account.token) {
                    LoginView::Known(account)
                } else {
                    LoginView::Start(account)
                },
                Err(f) => LoginView::Later(f),
            },
            Err(e) => LoginView::Later(seq!["login response is not JSON"@, e]),
        }
    }
}

/// What a login leads to, by the homeserver's reply. The client gets that reply as it is
/// in any case.
pub fn handle_login<C>(sessions: &SessionManager<C>, status: u16, bytes: &[u8]) -> (r: LoginOutcome)
    ensures
        r@ == login_outcome(sessions@.dom(), status, bytes@),
{
    if !is_success(status) {
        return LoginOutcome::Refused;
    }
    match parse_json(bytes) {
        Ok(body) => match sessions.insert_from_login(&body) {
            Ok((account, true)) => LoginOutcome::Start(account),
            Ok((account, false)) => LoginOutcome::Known(account),
            Err(f) => LoginOutcome::Later(f),
        },
        Err(e) => {
            let f = Failure::caused("login response is not JSON", e.as_str());
            LoginOutcome::Later(f)
        },
    }
}

/// The body of a login, or the complaint that it could not be read.
pub fn login_body(body: Result<Vec<u8>, String>) -> (r: Result<Vec<u8>, ProxyError>)
    ensures
        match body {
            Ok(bytes) => r matches Ok(b) && b@ == bytes@,
            Err(e) => r matches Err(why) && why@ == ProxyErrorView::BadRequest(
                "failed to read login body: "@ + e@,
            ),
        },
{
    match body {
        Ok(bytes) => Ok(bytes),
        Err(e) => Err(
            ProxyError::BadRequest("failed to read login body: ".to_owned().concat(e.as_str())),
        ),
    }
}

} // verus!
