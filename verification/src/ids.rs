//! Matrix identifiers.

use vstd::prelude::*;

verus! {

/// Whether a text is a room ID: it starts with `!` and holds no NUL.
pub open spec fn room_id(s: Seq<char>) -> bool {
    s.len() > 0 && s[0] == '!' && !s.contains('\0')
}

/// `ruma::RoomId::parse` takes texts that start with `!` and hold no NUL. They can be of
/// any length: `matrix-sdk-crypto` builds `ruma` with `compat-arbitrary-length-ids`.
#[verifier::external_body]
pub(crate) fn is_room_id(s: &str) -> (r: bool)
    ensures
        r == room_id(s@),
{
    ruma::RoomId::parse(s).is_ok()
}

/// What `ruma::UserId::parse` objects to in a text, if anything.
pub uninterp spec fn user_id_error(s: Seq<char>) -> Option<Seq<char>>;

/// Whether a text is a user ID.
pub open spec fn user_id(s: Seq<char>) -> bool {
    user_id_error(s) is None
}

/// `ruma::UserId::parse`: what it objects to in a text. Nothing is said of which
/// texts it takes but that they start with `@` and hold a colon.
#[verifier::external_body]
pub(crate) fn user_id_objection(s: &str) -> (r: Option<String>)
    ensures
        crate::text::opt_text(r) == user_id_error(s@),
        r is None ==> s@.len() > 0 && s@[0] == '@' && s@.contains(':'),
{
    ruma::UserId::parse(s).err().map(|e| e.to_string())
}

/// Whether a text is a user ID.
pub fn is_user_id(s: &str) -> (r: bool)
    ensures
        r == user_id(s@),
{
    user_id_objection(s).is_none()
}

} // verus!
