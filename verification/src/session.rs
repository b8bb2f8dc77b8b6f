//! Sessions: one for each device that is logged in through the proxy.

use crate::failure::Failure;
use crate::ids;
use crate::ids::user_id_objection;
use crate::json::{Json, JsonView};
use crate::percent;
use crate::string_map;
use crate::string_map::StringMap;
use crate::text;
use crate::wire;
use crate::wire::{is_success, reply_failure, HttpRequest, Reply};
use vstd::prelude::*;
use vstd::string::*;
use vstd::utf8::*;

verus! {

/// Whose session it is.
pub struct AccountContext {
    pub user_id: String,
    pub device_id: String,
    /// The access token, by which the session is found.
    pub token: String,
}

/// Whose session it is.
pub struct AccountView {
    pub user_id: Seq<char>,
    pub device_id: Seq<char>,
    pub token: Seq<char>,
}

impl AccountContext {
    pub open spec fn view(&self) -> AccountView {
        AccountView { user_id: self.user_id@, device_id: self.device_id@, token: self.token@ }
    }
}

/// A session: whose it is, and what else belongs to it.
pub struct Session<C> {
    pub account: AccountContext,
    pub state: C,
}

/// The active sessions, by access token.
pub struct SessionManager<C> {
    sessions: StringMap<Session<C>>,
}

/// What is known of the session of a token.
pub enum SessionLookup {
    /// It is there.
    Known,
    /// The homeserver has to be asked whose the token is.
    Ask(HttpRequest),
}

/// The tokens of some sessions, in dictionary order.
pub open spec fn session_tokens<C>(sessions: Map<Seq<char>, Session<C>>) -> Seq<Seq<char>> {
    string_map::in_order(sessions.dom())
}

impl<C> SessionManager<C> {
    /// The sessions by their tokens.
    pub closed spec fn view(&self) -> Map<Seq<char>, Session<C>> {
        self.sessions@
    }

    /// No sessions.
    pub fn new() -> (r: SessionManager<C>)
        ensures
            r@ == Map::<Seq<char>, Session<C>>::empty(),
    {
        SessionManager { sessions: StringMap::new() }
    }

    /// The session of a token.
    pub fn get(&self, token: &str) -> (r: Option<&Session<C>>)
        ensures
            match r {
                Some(s) => self@.contains_key(token@) && *s == self@[token@],
                None => !self@.contains_key(token@),
            },
    {
        self.sessions.get(token)
    }

    /// The tokens of all sessions, in dictionary order.
    pub fn list(&self) -> (r: Vec<String>)
        ensures
            text::texts(r@) == session_tokens(self@),
            forall|t: Seq<char>| #[trigger]
                self@.contains_key(t) <==> session_tokens(self@).contains(t),
    {
        let mut out: Vec<String> = Vec::new();
        let n: usize = self.sessions.len();
        let ghost keys = self.sessions.keys();
        let mut i: usize = 0;
        while i < n
            invariant
                i <= n == keys.len(),
                keys == self.sessions.keys(),
                text::texts(out@) =~= keys.take(i as int),
            decreases n - i,
        {
            let (k, _) = self.sessions.entry_at(i);
            let ghost before = out@;
            out.push(k.clone());
            proof {
                assert(text::texts(out@) =~= text::texts(before).push(k@));
                assert(keys.take(i + 1) =~= keys.take(i as int).push(keys[i as int]));
            }
            i += 1;
        }
        assert(keys.take(n as int) =~= keys);
        out
    }

    /// Any session: the first one in dictionary order of the tokens.
    pub fn any(&self) -> (r: Option<&Session<C>>)
        ensures
            match r {
                Some(s) => session_tokens(self@).len() > 0 && self@.contains_key(
                    session_tokens(self@)[0],
                ) && *s == self@[session_tokens(self@)[0]],
                None => session_tokens(self@).len() == 0,
            },
    {
        if self.sessions.len() == 0 {
            None
        } else {
            let (_, s) = self.sessions.entry_at(0);
            Some(s)
        }
    }

    /// Drops the session of a token.
    pub fn remove(&mut self, token: &str)
        ensures
            final(self)@ == old(self)@.remove(token@),
    {
        self.sessions.remove(token);
    }

    /// Looks the session of a token up. A token that was not seen before is asked about:
    /// clients that restore a session do not log in again.
    pub fn get_or_init(&self, token: &str) -> (r: SessionLookup)
        ensures
            if self@.contains_key(token@) {
                r is Known
            } else {
                r matches SessionLookup::Ask(req) && req@ == wire::get_request(
                    "/_matrix/client/v3/account/whoami"@,
                )
            },
    {
        if self.get(token).is_some() {
            SessionLookup::Known
        } else {
            SessionLookup::Ask(HttpRequest::get("/_matrix/client/v3/account/whoami".to_owned()))
        }
    }

    /// Whose session a successful login started, and whether that session is new.
    pub fn insert_from_login(&self, body: &Json) -> (r: Result<(AccountContext, bool), Failure>)
        ensures
            match login_account(body@) {
                Ok(account) => r matches Ok((a, new)) && a@ == account && new
                    == !self@.contains_key(account.token),
                Err(f) => r matches Err(e) && e@ == f,
            },
    {
        match account_from_login(body) {
            Ok(account) => {
                let new = self.get(account.token.as_str()).is_none();
                Ok((account, new))
            },
            Err(f) => Err(f),
        }
    }

    /// Adds a session under its token, unless there is one already: of two requests that
    /// start a session at the same time, the first one wins. Says whether it was added.
    pub fn insert(&mut self, session: Session<C>) -> (r: bool)
        ensures
            r == !old(self)@.contains_key(session.account.token@),
            final(self)@ == with_session(old(self)@, session),
    {
        if self.sessions.get(session.account.token.as_str()).is_some() {
            return false;
        }
        self.sessions.insert(session.account.token.clone(), session);
        true
    }
}

/// Sessions with one added under its token, unless there is one already.
pub open spec fn with_session<C>(
    sessions: Map<Seq<char>, Session<C>>,
    session: Session<C>,
) -> Map<Seq<char>, Session<C>> {
    if sessions.contains_key(session.account.token@) {
        sessions
    } else {
        sessions.insert(session.account.token@, session)
    }
}

/// Of two sessions with one token the first one stays, until it is dropped; then there is
/// room for another. Sessions with other tokens are left alone.
pub proof fn first_session_stays<C>(
    m: Map<Seq<char>, Session<C>>,
    a: Session<C>,
    b: Session<C>,
    other: Seq<char>,
)
    requires
        a.account.token@ == b.account.token@,
        !m.contains_key(a.account.token@),
        other != a.account.token@,
    ensures
        ({
            let t = a.account.token@;
            let both = with_session(with_session(m, a), b);
            &&& both.contains_key(t) && both[t] == a
            &&& both.remove(t) == m
            &&& with_session(both.remove(t), b)[t] == b
            &&& both.contains_key(other) == m.contains_key(other)
            &&& both[other] == m[other]
        }),
{
    let t = a.account.token@;
    assert(with_session(with_session(m, a), b).remove(t) =~= m);
}

/// Whether each session is kept under its own token.
pub open spec fn under_own_tokens<C>(m: Map<Seq<char>, Session<C>>) -> bool {
    forall|t: Seq<char>| #[trigger] m.contains_key(t) ==> m[t].account.token@ == t
}

/// What is found under a token is the session of that token: that holds of no sessions, and
/// adding and dropping sessions keeps it so.
pub proof fn sessions_keep_their_tokens<C>(
    m: Map<Seq<char>, Session<C>>,
    session: Session<C>,
    token: Seq<char>,
)
    requires
        under_own_tokens(m),
    ensures
        under_own_tokens(Map::<Seq<char>, Session<C>>::empty()),
        under_own_tokens(with_session(m, session)),
        under_own_tokens(m.remove(token)),
{
}

/// The view of an account, or why there is none.
pub open spec fn account_result(r: Result<AccountContext, Failure>) -> Result<
    AccountView,
    Seq<Seq<char>>,
> {
    match r {
        Ok(a) => Ok(a@),
        Err(f) => Err(f@),
    }
}

/// The account of a user's device, provided that the user's ID is one.
pub open spec fn account_of(token: Seq<char>, user_id: Seq<char>, device_id: Seq<char>) -> Result<
    AccountView,
    Seq<Seq<char>>,
> {
    match ids::user_id_error(user_id) {
        Some(e) => Err(seq!["invalid user_id"@, e]),
        None => Ok(AccountView { user_id, device_id, token }),
    }
}

fn make_account(token: String, user_id: String, device_id: String) -> (r: Result<
    AccountContext,
    Failure,
>)
    ensures
        account_result(r) == account_of(token@, user_id@, device_id@),
{
    match user_id_objection(user_id.as_str()) {
        Some(e) => {
            let f = Failure::caused("invalid user_id", e.as_str());
            Err(f)
        },
        None => Ok(AccountContext { user_id, device_id, token }),
    }
}

/// Whose a token is, by the homeserver's reply.
pub open spec fn whoami_account(token: Seq<char>, status: u16, body: JsonView) -> Result<
    AccountView,
    Seq<Seq<char>>,
> {
    if !wire::success(status) {
        Err(seq![wire::reply_message("whoami failed with "@, status, ": "@, body)])
    } else {
        match (body.get_text("user_id"@), body.get_text("device_id"@)) {
            (None, _) => Err(seq!["whoami response missing user_id"@]),
            (_, None) => Err(
                seq![
                    "whoami response missing device_id (appservice tokens are unsupported)"@,
                ],
            ),
            (Some(user_id), Some(device_id)) => account_of(token, user_id, device_id),
        }
    }
}

/// Whose a token is, by the homeserver's reply.
pub fn account_from_whoami(token: &str, reply: Result<Reply, Failure>) -> (r: Result<
    AccountContext,
    Failure,
>)
    ensures
        account_result(r) == match reply {
            Ok(reply) => whoami_account(token@, reply.status, reply.body@),
            Err(f) => Err(f@),
        },
{
    let reply = match reply {
        Ok(reply) => reply,
        Err(f) => {
            return Err(f);
        },
    };
    if !is_success(reply.status) {
        return Err(reply_failure("whoami failed with ", &reply, ": "));
    }
    let user_id = match reply.body.get_text("user_id") {
        Some(u) => u,
        None => {
            return Err(Failure::new("whoami response missing user_id"));
        },
    };
    let device_id = match reply.body.get_text("device_id") {
        Some(d) => d,
        None => {
            return Err(
                Failure::new(
                    "whoami response missing device_id (appservice tokens are unsupported)",
                ),
            );
        },
    };
    make_account(token.to_owned(), user_id, device_id)
}

/// Whose session a successful login started.
pub open spec fn login_account(body: JsonView) -> Result<AccountView, Seq<Seq<char>>> {
    match (
        body.get_text("access_token"@),
        body.get_text("user_id"@),
        body.get_text("device_id"@),
    ) {
        (None, _, _) => Err(seq!["login response missing access_token"@]),
        (_, None, _) => Err(seq!["login response missing user_id"@]),
        (_, _, None) => Err(seq!["login response missing device_id"@]),
        (Some(token), Some(user_id), Some(device_id)) => account_of(token, user_id, device_id),
    }
}

/// Whose session a successful login started.
pub fn account_from_login(body: &Json) -> (r: Result<AccountContext, Failure>)
    ensures
        account_result(r) == login_account(body@),
{
    let token = match body.get_text("access_token") {
        Some(t) => t,
        None => {
            return Err(Failure::new("login response missing access_token"));
        },
    };
    let user_id = match body.get_text("user_id") {
        Some(u) => u,
        None => {
            return Err(Failure::new("login response missing user_id"));
        },
    };
    let device_id = match body.get_text("device_id") {
        Some(d) => d,
        None => {
            return Err(Failure::new("login response missing device_id"));
        },
    };
    make_account(token, user_id, device_id)
}

/// Whether a byte stands for itself in the name of a directory: ASCII letters and digits,
/// and `.`, `-`, `_`, `@`, `:`, `=` and `+`.
pub open spec fn safe_byte(b: u8) -> bool {
    ||| 48 <= b <= 57
    ||| 65 <= b <= 90
    ||| 97 <= b <= 122
    ||| b == 46
    ||| b == 45
    ||| b == 95
    ||| b == 64
    ||| b == 58
    ||| b == 61
    ||| b == 43
}

/// Whether some bytes are one dot or two, or nothing. The file system has a meaning for
/// such names.
pub open spec fn only_dots(bytes: Seq<u8>) -> bool {
    bytes.len() <= 2 && forall|i: int| 0 <= i < bytes.len() ==> bytes[i] == 46
}

/// A byte in the name of a directory; `dots` says that dots are escaped too.
pub open spec fn name_byte(b: u8, dots: bool) -> Seq<char> {
    if safe_byte(b) && !(dots && b == 46) {
        seq![b as char]
    } else {
        percent::escaped(b)
    }
}

/// Some bytes in the name of a directory.
pub open spec fn name_bytes(bytes: Seq<u8>, dots: bool) -> Seq<char>
    decreases bytes.len(),
{
    if bytes.len() == 0 {
        Seq::empty()
    } else {
        name_byte(bytes[0], dots) + name_bytes(bytes.skip(1), dots)
    }
}

/// The name of the directory for an ID: the ID with each byte percent-encoded that cannot
/// stand there. One dot, or two, are encoded where there is nothing else, and no ID at all
/// is `%`.
pub open spec fn sanitized(id: Seq<char>) -> Seq<char> {
    let bytes = encode_utf8(id);
    if bytes.len() == 0 {
        seq!['%']
    } else {
        name_bytes(bytes, only_dots(bytes))
    }
}

fn is_safe_byte(b: u8) -> (r: bool)
    ensures
        r == safe_byte(b),
{
    (48 <= b && b <= 57) || (65 <= b && b <= 90) || (97 <= b && b <= 122) || b == 46 || b == 45
        || b == 95 || b == 64 || b == 58 || b == 61 || b == 43
}

fn has_only_dots(bytes: &[u8]) -> (r: bool)
    ensures
        r == only_dots(bytes@),
{
    if bytes.len() > 2 {
        return false;
    }
    let mut i: usize = 0;
    while i < bytes.len()
        invariant
            i <= bytes@.len() <= 2,
            forall|j: int| 0 <= j < i ==> bytes@[j] == 46,
        decreases bytes@.len() - i,
    {
        if bytes[i] != 46 {
            return false;
        }
        i += 1;
    }
    true
}

/// The name of the directory for an ID.
pub fn sanitize_for_path(id: &str) -> (r: String)
    ensures
        r@ == sanitized(id@),
        r@.len() > 0 && r@ != "."@ && r@ != ".."@,
{
    proof {
        sanitized_is_safe(id@);
    }
    let bytes = id.as_bytes();
    let mut out = String::new();
    if bytes.len() == 0 {
        out.push('%');
        assert(out@ =~= seq!['%']);
        return out;
    }
    let dots = has_only_dots(bytes);
    let mut i: usize = 0;
    assert(bytes@.skip(0) =~= bytes@);
    while i < bytes.len()
        invariant
            i <= bytes@.len(),
            out@ + name_bytes(bytes@.skip(i as int), dots) == name_bytes(bytes@, dots),
        decreases bytes@.len() - i,
    {
        let b = bytes[i];
        let ghost before = out@;
        proof {
            assert(bytes@.skip(i as int)[0] == b);
            assert(bytes@.skip(i as int).skip(1) =~= bytes@.skip(i + 1));
        }
        if is_safe_byte(b) && !(dots && b == 46) {
            out.push(b as char);
        } else {
            out.append(percent_encoding::percent_encode_byte(b));
        }
        proof {
            assert(out@ =~= before + name_byte(b, dots));
            assert(before + (name_byte(b, dots) + name_bytes(bytes@.skip(i + 1), dots)) =~= (before
                + name_byte(b, dots)) + name_bytes(bytes@.skip(i + 1), dots));
        }
        i += 1;
    }
    assert(bytes@.skip(i as int).len() == 0);
    assert(out@ =~= name_bytes(bytes@, dots));
    out
}

/// With its escapes undone, a name is what it was made of.
pub proof fn lemma_decoded_name(bytes: Seq<u8>, dots: bool)
    ensures
        percent::decoded(name_bytes(bytes, dots)) == bytes,
    decreases bytes.len(),
{
    if bytes.len() > 0 {
        let b = bytes[0];
        let rest = name_bytes(bytes.skip(1), dots);
        lemma_decoded_name(bytes.skip(1), dots);
        let s = name_bytes(bytes, dots);
        if safe_byte(b) && !(dots && b == 46) {
            assert(s[0] == b as char);
            percent::lemma_ascii_byte(b);
            assert(s.skip(1) =~= rest);
            assert(s[0] != '%');
            assert(percent::decoded(s) == seq![b] + percent::decoded(rest));
        } else {
            percent::lemma_hex(b);
            assert(s[0] == '%');
            assert(s[1] == percent::hex_digit(b as int / 16));
            assert(s[2] == percent::hex_digit(b as int % 16));
            assert(s.skip(3) =~= rest);
        }
        assert(seq![b] + bytes.skip(1) =~= bytes);
    }
}

/// Whether a character can stand in the name of a directory.
pub open spec fn safe_char(c: char) -> bool {
    c == '%' || exists|b: u8| safe_byte(b) && c == b as char
}

proof fn lemma_name_characters(bytes: Seq<u8>, dots: bool)
    ensures
        forall|i: int|
            0 <= i < name_bytes(bytes, dots).len() ==> safe_char(
                #[trigger] name_bytes(bytes, dots)[i],
            ),
        bytes.len() > 0 ==> name_bytes(bytes, dots).len() > 0,
    decreases bytes.len(),
{
    if bytes.len() > 0 {
        let b = bytes[0];
        let rest = name_bytes(bytes.skip(1), dots);
        lemma_name_characters(bytes.skip(1), dots);
        let s = name_bytes(bytes, dots);
        assert forall|i: int| 0 <= i < s.len() implies safe_char(#[trigger] s[i]) by {
            let n = name_byte(b, dots).len() as int;
            if i >= n {
                assert(s[i] == rest[i - n]);
            } else if safe_byte(b) && !(dots && b == 46) {
                assert(s[i] == b as char);
            } else {
                percent::lemma_hex(b);
                if i > 0 {
                    let d = if i == 1 {
                        b as int / 16
                    } else {
                        b as int % 16
                    };
                    let x = (if d < 10 {
                        48 + d
                    } else {
                        55 + d
                    }) as u8;
                    assert(safe_byte(x) && s[i] == x as char);
                }
            }
        }
    }
}

proof fn lemma_named_dots(bytes: Seq<u8>)
    requires
        bytes.len() > 0,
        only_dots(bytes) || name_bytes(bytes, false) == "."@ || name_bytes(bytes, false) == ".."@,
    ensures
        only_dots(bytes),
        name_bytes(bytes, true)[0] == '%',
{
    reveal_strlit(".");
    reveal_strlit("..");
    if !only_dots(bytes) {
        lemma_decoded_name(bytes, false);
        percent::lemma_ascii_byte(46);
        assert(46u8 as char == '.');
        assert(seq!['.'].skip(1) =~= Seq::<char>::empty());
        assert(seq!['.', '.'].skip(1) =~= seq!['.']);
        assert(percent::decoded(Seq::<char>::empty()) =~= Seq::<u8>::empty());
        assert(percent::decoded(seq!['.']) =~= seq![46u8]);
        assert(percent::decoded(seq!['.', '.']) =~= seq![46u8, 46u8]);
        assert("."@ =~= seq!['.']);
        assert(".."@ =~= seq!['.', '.']);
        assert(false);
    }
    assert(bytes[0] == 46);
}

/// The name of a directory is safe as one: it is not empty, it names neither a directory
/// itself nor its parent, and nothing in it is special in a path.
pub proof fn sanitized_is_safe(id: Seq<char>)
    ensures
        sanitized(id).len() > 0,
        sanitized(id) != "."@,
        sanitized(id) != ".."@,
        forall|i: int| 0 <= i < sanitized(id).len() ==> safe_char(#[trigger] sanitized(id)[i]),
        !sanitized(id).contains('/'),
        !sanitized(id).contains('\\'),
        !sanitized(id).contains('\0'),
{
    let bytes = encode_utf8(id);
    reveal_strlit(".");
    reveal_strlit("..");
    assert("."@[0] == '.' && ".."@[0] == '.');
    if bytes.len() > 0 {
        lemma_name_characters(bytes, only_dots(bytes));
        if only_dots(bytes) || sanitized(id) == "."@ || sanitized(id) == ".."@ {
            lemma_named_dots(bytes);
            assert(sanitized(id)[0] == '%');
        }
    } else {
        assert(sanitized(id)[0] == '%');
    }
}

/// An ID of safe characters is its own name, unless the file system has a meaning for it.
pub proof fn safe_id_is_its_name(id: Seq<char>)
    requires
        forall|i: int|
            0 <= i < id.len() ==> exists|b: u8| safe_byte(b) && #[trigger] id[i] == b as char,
        id.len() > 0,
        id != "."@,
        id != ".."@,
    ensures
        sanitized(id) == id,
{
    reveal_strlit(".");
    reveal_strlit("..");
    lemma_safe_bytes(id);
    let bytes = encode_utf8(id);
    if only_dots(bytes) {
        assert(bytes[0] as char == id[0]);
        if id.len() == 1 {
            assert(id =~= "."@);
        } else {
            assert(bytes[1] as char == id[1]);
            assert(id =~= ".."@);
        }
    }
}

/// Safe characters are one byte each, and stand for themselves.
proof fn lemma_safe_bytes(id: Seq<char>)
    requires
        forall|i: int|
            0 <= i < id.len() ==> exists|b: u8| safe_byte(b) && #[trigger] id[i] == b as char,
    ensures
        encode_utf8(id).len() == id.len(),
        forall|i: int| 0 <= i < id.len() ==> #[trigger] encode_utf8(id)[i] as char == id[i],
        name_bytes(encode_utf8(id), false) == id,
    decreases id.len(),
{
    if id.len() > 0 {
        let b = choose|b: u8| safe_byte(b) && id[0] == b as char;
        let rest = id.drop_first();
        assert forall|i: int| 0 <= i < rest.len() implies exists|b: u8|
            safe_byte(b) && #[trigger] rest[i] == b as char by {
            assert(rest[i] == id[i + 1]);
        }
        lemma_safe_bytes(rest);
        percent::lemma_ascii_byte(b);
        assert(seq![id[0]].drop_first() =~= Seq::<char>::empty());
        assert(encode_utf8(Seq::<char>::empty()) =~= Seq::<u8>::empty());
        assert(encode_utf8(seq![id[0]]) =~= encode_scalar(id[0] as u32));
        assert(encode_utf8(id) =~= seq![b] + encode_utf8(rest));
        let bytes = encode_utf8(id);
        assert(bytes.skip(1) =~= encode_utf8(rest));
        assert(name_bytes(bytes, false) =~= seq![b as char] + rest);
        assert(seq![b as char] + rest =~= id);
        assert forall|i: int| 0 <= i < id.len() implies #[trigger] bytes[i] as char == id[i] by {
            if i > 0 {
                assert(bytes[i] == encode_utf8(rest)[i - 1]);
                assert(rest[i - 1] == id[i]);
            }
        }
    }
}

/// Different IDs have different names.
pub proof fn sanitized_is_unique(a: Seq<char>, b: Seq<char>)
    requires
        sanitized(a) == sanitized(b),
    ensures
        a == b,
{
    let x = encode_utf8(a);
    let y = encode_utf8(b);
    lemma_decoded_name(x, only_dots(x));
    lemma_decoded_name(y, only_dots(y));
    lemma_escape_is_long(x, only_dots(x));
    lemma_escape_is_long(y, only_dots(y));
    assert(x =~= y);
    encode_utf8_decode_utf8(a);
    encode_utf8_decode_utf8(b);
}

proof fn lemma_escape_is_long(bytes: Seq<u8>, dots: bool)
    ensures
        name_bytes(bytes, dots) != seq!['%'],
{
    let one = seq!['%'];
    assert(one.len() == 1 && one[0] == '%');
    if bytes.len() > 0 {
        let b = bytes[0];
        let s = name_bytes(bytes, dots);
        if safe_byte(b) && !(dots && b == 46) {
            assert(s[0] == b as char);
            assert(b as char != '%');
        } else {
            assert(s.len() >= 3);
        }
    }
}

/// The place of a device's store, below the directory of all of them.
pub open spec fn store_name(user_id: Seq<char>, device_id: Seq<char>) -> Seq<char> {
    sanitized(user_id) + "/"@ + sanitized(device_id)
}

/// The place of a device's store, below the directory of all of them: a directory of the
/// user, and in it one of the device.
pub fn store_path(account: &AccountContext) -> (r: String)
    ensures
        r@ == store_name(account.user_id@, account.device_id@),
{
    sanitize_for_path(account.user_id.as_str()).concat("/").concat(
        sanitize_for_path(account.device_id.as_str()).as_str(),
    )
}

/// Each device has a store of its own: the stores of two devices are in different places.
pub proof fn stores_are_apart(
    user: Seq<char>,
    device: Seq<char>,
    other_user: Seq<char>,
    other_device: Seq<char>,
)
    requires
        store_name(user, device) == store_name(other_user, other_device),
    ensures
        user == other_user,
        device == other_device,
{
    reveal_strlit("/");
    assert("/"@ =~= seq!['/']);
    sanitized_is_safe(user);
    sanitized_is_safe(device);
    sanitized_is_safe(other_user);
    sanitized_is_safe(other_device);
    text::lemma_split_join(sanitized(user), sanitized(device), '/');
    text::lemma_split_join(sanitized(other_user), sanitized(other_device), '/');
    text::lemma_split_one(sanitized(device), '/');
    text::lemma_split_one(sanitized(other_device), '/');
    let s = text::split(store_name(user, device), '/');
    assert(s =~= seq![sanitized(user), sanitized(device)]);
    assert(s =~= seq![sanitized(other_user), sanitized(other_device)]);
    assert(s[0] == sanitized(user) && s[1] == sanitized(device));
    sanitized_is_unique(user, other_user);
    sanitized_is_unique(device, other_device);
}

} // verus!
