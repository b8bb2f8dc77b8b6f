//! Sessions: whose they are, how they are found, and where they are kept.

use crate::ids;
use crate::json::JsonView;
use crate::json_text;
use crate::laws::order;
use crate::laws::percent as encodings;
use crate::percent;
use crate::proxy::login;
use crate::proxy::login::LoginView;
use crate::session;
use crate::session::Session;
use vstd::prelude::*;
use vstd::string::*;
use vstd::utf8::*;

verus! {

/// A token is that of the user and the device that the homeserver names, provided that it
/// names both, and the user properly.
pub proof fn token_is_that_of_its_owner(token: Seq<char>, status: u16, body: JsonView)
    ensures
        match session::whoami_account(token, status, body) {
            Ok(a) => {
                &&& 200 <= status <= 299
                &&& a.token == token
                &&& body.get("user_id"@) == Some(JsonView::Str(a.user_id))
                &&& body.get("device_id"@) == Some(JsonView::Str(a.device_id))
                &&& ids::user_id(a.user_id)
            },
            Err(_) => {
                ||| status < 200
                ||| status > 299
                ||| !(body.get("device_id"@) matches Some(JsonView::Str(_)))
                ||| match body.get("user_id"@) {
                    Some(JsonView::Str(u)) => !ids::user_id(u),
                    _ => true,
                }
            },
        },
{
}

/// A login is that of the user, the device and the token that its response names, provided
/// that it names all three, and the user properly.
pub proof fn login_is_that_of_its_owner(body: JsonView)
    ensures
        match session::login_account(body) {
            Ok(a) => {
                &&& body.get("access_token"@) == Some(JsonView::Str(a.token))
                &&& body.get("user_id"@) == Some(JsonView::Str(a.user_id))
                &&& body.get("device_id"@) == Some(JsonView::Str(a.device_id))
                &&& ids::user_id(a.user_id)
            },
            Err(_) => {
                ||| !(body.get("access_token"@) matches Some(JsonView::Str(_)))
                ||| !(body.get("device_id"@) matches Some(JsonView::Str(_)))
                ||| match body.get("user_id"@) {
                    Some(JsonView::Str(u)) => !ids::user_id(u),
                    _ => true,
                }
            },
        },
{
}

/// A login starts a session where it succeeds and names its owner, unless there is one for
/// its token; what it names wrongly is found out when the token is used; a refusal starts
/// nothing.
pub proof fn login_starts_a_session(known: Set<Seq<char>>, status: u16, bytes: Seq<u8>)
    ensures
        status < 200 || status > 299 <==> login::login_outcome(known, status, bytes) is Refused,
        200 <= status <= 299 ==> match json_text::parsed(bytes) {
            Ok(body) => match session::login_account(body) {
                Ok(a) => login::login_outcome(known, status, bytes) == if known.contains(a.token) {
                    LoginView::Known(a)
                } else {
                    LoginView::Start(a)
                },
                Err(f) => login::login_outcome(known, status, bytes) == LoginView::Later(f),
            },
            Err(e) => login::login_outcome(known, status, bytes) matches LoginView::Later(f)
                && f.len() == 2 && f[1] == e,
        },
{
}

/// A session is found under its token once it is there, and no other is touched.
pub proof fn session_is_found_by_its_token<C>(
    sessions: Map<Seq<char>, Session<C>>,
    new: Session<C>,
    other: Seq<char>,
)
    ensures
        ({
            let after = session::with_session(sessions, new);
            let token = new.account.token@;
            &&& after.contains_key(token)
            &&& after[token] == if sessions.contains_key(token) {
                sessions[token]
            } else {
                new
            }
            &&& other != token ==> after.contains_key(other) == sessions.contains_key(other) && (
            sessions.contains_key(other) ==> after[other] == sessions[other])
        }),
{
}

/// All sessions are listed, each once.
pub proof fn sessions_are_listed<C>(sessions: Map<Seq<char>, Session<C>>, token: Seq<char>)
    requires
        sessions.dom().finite(),
    ensures
        session::session_tokens(sessions).contains(token) <==> sessions.contains_key(token),
        session::session_tokens(sessions).no_duplicates(),
{
    order::order_lists_all(sessions.dom());
    assert(sessions.dom().contains(token) == sessions.contains_key(token));
}

/// Whether a character can stand in the name of a directory: ASCII letters and digits, and
/// `.`, `-`, `_`, `@`, `:`, `=` and `+`.
pub open spec fn plain(c: char) -> bool {
    ||| '0' <= c <= '9'
    ||| 'A' <= c <= 'Z'
    ||| 'a' <= c <= 'z'
    ||| c == '.'
    ||| c == '-'
    ||| c == '_'
    ||| c == '@'
    ||| c == ':'
    ||| c == '='
    ||| c == '+'
}

/// An ID of such characters is the name of its own directory, unless it is one dot or two.
pub proof fn plain_ids_name_their_directories(id: Seq<char>)
    requires
        id.len() > 0,
        id != "."@,
        id != ".."@,
        forall|i: int| 0 <= i < id.len() ==> plain(#[trigger] id[i]),
    ensures
        session::sanitized(id) == id,
{
    reveal_strlit(".");
    reveal_strlit("..");
    lemma_plain_bytes(id);
    let bytes = encode_utf8(id);
    if session::only_dots(bytes) {
        assert(bytes[0] as char == id[0]);
        if id.len() == 1 {
            assert(id =~= "."@);
        } else {
            assert(bytes[1] as char == id[1]);
            assert(id =~= ".."@);
        }
    }
}

proof fn lemma_plain_bytes(id: Seq<char>)
    requires
        forall|i: int| 0 <= i < id.len() ==> plain(#[trigger] id[i]),
    ensures
        encode_utf8(id).len() == id.len(),
        forall|i: int| 0 <= i < id.len() ==> #[trigger] encode_utf8(id)[i] as char == id[i],
        session::name_bytes(encode_utf8(id), false) == id,
    decreases id.len(),
{
    if id.len() > 0 {
        let c = id[0];
        let b = c as u32 as u8;
        char_u32_cast(c, c as u32);
        assert((c as u32) < 128);
        assert(session::safe_byte(b) && c == b as char);
        let rest = id.drop_first();
        lemma_plain_bytes(rest);
        percent::lemma_ascii_byte(b);
        let bytes = encode_utf8(id);
        encodings::bytes_add_up(seq![c], rest);
        assert(seq![c] + rest =~= id);
        assert(bytes =~= seq![b] + encode_utf8(rest));
        assert(bytes.skip(1) =~= encode_utf8(rest));
        assert(session::name_bytes(bytes, false) =~= seq![c] + rest);
        assert forall|i: int| 0 <= i < id.len() implies #[trigger] bytes[i] as char == id[i] by {
            if i > 0 {
                assert(bytes[i] == encode_utf8(rest)[i - 1]);
                assert(rest[i - 1] == id[i]);
            }
        }
    }
}

/// The name of a directory tells which ID it is for, with its escapes undone.
pub proof fn directories_tell_their_ids(id: Seq<char>)
    requires
        id.len() > 0,
    ensures
        percent::decoded_text(session::sanitized(id)) == id,
{
    let bytes = encode_utf8(id);
    assert(bytes.len() > 0) by {
        if bytes.len() == 0 {
            encode_utf8_decode_utf8(id);
            assert(bytes =~= encode_utf8(Seq::<char>::empty()));
            encode_utf8_decode_utf8(Seq::<char>::empty());
        }
    }
    session::lemma_decoded_name(bytes, session::only_dots(bytes));
    encode_utf8_valid_utf8(id);
    encode_utf8_decode_utf8(id);
}

/// The store of an account stands in the directory of its device below that of its user.
pub proof fn store_is_below_its_user(user: Seq<char>, device: Seq<char>)
    ensures
        session::store_name(user, device) == session::sanitized(user) + "/"@ + session::sanitized(
            device,
        ),
{
}

} // verus!
