//! Percent-encoding, character by character.

use crate::percent;
use vstd::prelude::*;
use vstd::string::*;
use vstd::utf8::*;

verus! {

/// Whether a character stands for itself in an encoded text: ASCII letters and digits, and
/// `-`, `_`, `.` and `~`.
pub open spec fn plain(c: char) -> bool {
    ||| '0' <= c <= '9'
    ||| 'A' <= c <= 'Z'
    ||| 'a' <= c <= 'z'
    ||| c == '-'
    ||| c == '_'
    ||| c == '.'
    ||| c == '~'
}

/// The bytes of two texts are those of the first and then those of the second.
pub proof fn bytes_add_up(a: Seq<char>, b: Seq<char>)
    ensures
        encode_utf8(a + b) == encode_utf8(a) + encode_utf8(b),
    decreases a.len(),
{
    if a.len() == 0 {
        assert(a + b =~= b);
        assert(encode_utf8(a) + encode_utf8(b) =~= encode_utf8(b));
    } else {
        bytes_add_up(a.drop_first(), b);
        assert((a + b).drop_first() =~= a.drop_first() + b);
        assert(encode_utf8(a + b) =~= encode_utf8(a) + encode_utf8(b));
    }
}

proof fn lemma_encoded(a: Seq<u8>, b: Seq<u8>)
    ensures
        percent::encoded(a + b) == percent::encoded(a) + percent::encoded(b),
    decreases a.len(),
{
    if a.len() == 0 {
        assert(a + b =~= b);
        assert(percent::encoded(a) + percent::encoded(b) =~= percent::encoded(b));
    } else {
        lemma_encoded(a.skip(1), b);
        assert((a + b).skip(1) =~= a.skip(1) + b);
        assert(percent::encoded(a + b) =~= percent::encoded(a) + percent::encoded(b));
    }
}

/// A text is encoded piece by piece.
pub proof fn encoding_adds_up(a: Seq<char>, b: Seq<char>)
    ensures
        percent::encoded_text(a + b) == percent::encoded_text(a) + percent::encoded_text(b),
{
    bytes_add_up(a, b);
    lemma_encoded(encode_utf8(a), encode_utf8(b));
}

/// The hexadecimal digits that are written are these.
pub proof fn digits_are_upper_case(n: int)
    requires
        0 <= n < 16,
    ensures
        percent::hex_digit(n) == "0123456789ABCDEF"@[n],
{
    reveal_strlit("0123456789ABCDEF");
    let c = "0123456789ABCDEF"@[n];
    char_u32_cast(c, c as u32);
    assert(c as u32 == if n < 10 { 48 + n } else { 55 + n });
}

/// A byte that is escaped is `%` and its two digits.
pub proof fn escapes_are_two_digits(b: u8)
    ensures
        percent::escaped(b).len() == 3,
        percent::escaped(b)[0] == '%',
        percent::escaped(b)[1] == "0123456789ABCDEF"@[b as int / 16],
        percent::escaped(b)[2] == "0123456789ABCDEF"@[b as int % 16],
{
    digits_are_upper_case(b as int / 16);
    digits_are_upper_case(b as int % 16);
}

/// An ASCII character is encoded as itself where it is plain, and else as the escape of its
/// code.
pub proof fn plain_characters_stay(b: u8)
    requires
        b < 128,
    ensures
        percent::encoded_text(seq![b as char]) == if plain(b as char) {
            seq![b as char]
        } else {
            percent::escaped(b)
        },
{
    percent::lemma_ascii_byte(b);
    let bytes = seq![b];
    assert(bytes.skip(1) =~= Seq::empty());
    assert(percent::encoded(bytes.skip(1)) =~= Seq::empty());
    assert(percent::encoded(bytes) =~= percent::encoded_byte(b));
    assert(plain(b as char) == percent::unreserved(b)) by {
        let c = b as char;
        char_u32_cast('-', 45);
        char_u32_cast('_', 95);
        char_u32_cast('.', 46);
        char_u32_cast('~', 126);
        assert(c as u32 == b as u32);
    }
}

/// A plain text is encoded as itself.
pub proof fn plain_text_stays(s: Seq<char>)
    requires
        forall|i: int| 0 <= i < s.len() ==> plain(#[trigger] s[i]),
    ensures
        percent::encoded_text(s) == s,
    decreases s.len(),
{
    if s.len() == 0 {
        assert(encode_utf8(s) =~= Seq::empty());
        assert(percent::encoded_text(s) =~= s);
    } else {
        let c = s[0];
        let rest = s.skip(1);
        plain_text_stays(rest);
        let b = c as u32 as u8;
        char_u32_cast(c, c as u32);
        assert((c as u32) < 128);
        assert(b as char == c);
        plain_characters_stay(b);
        encoding_adds_up(seq![c], rest);
        assert(seq![c] + rest =~= s);
    }
}

/// An escape is read back as its byte, with digits of either case, wherever it stands.
pub proof fn escapes_are_undone(high: char, low: char, h: int, l: int, rest: Seq<char>)
    requires
        0 <= h < 16,
        0 <= l < 16,
        high == "0123456789ABCDEF"@[h] || high == "0123456789abcdef"@[h],
        low == "0123456789ABCDEF"@[l] || low == "0123456789abcdef"@[l],
    ensures
        percent::decoded(seq!['%', high, low] + rest) == seq![(16 * h + l) as u8]
            + percent::decoded(rest),
{
    reveal_strlit("0123456789ABCDEF");
    reveal_strlit("0123456789abcdef");
    let s = seq!['%', high, low] + rest;
    assert(s.skip(3) =~= rest);
    assert(percent::hex_value(high) == Some(h));
    assert(percent::hex_value(low) == Some(l));
}

/// A `%` that no two digits follow is read as itself, and so is every other character.
pub proof fn other_characters_are_kept(c: char, rest: Seq<char>)
    requires
        c != '%' || rest.len() < 2 || percent::hex_value(rest[0]) is None || percent::hex_value(
            rest[1],
        ) is None,
    ensures
        percent::decoded(seq![c] + rest) == encode_utf8(seq![c]) + percent::decoded(rest),
{
    let s = seq![c] + rest;
    assert(s.skip(1) =~= rest);
    if s.len() >= 3 {
        assert(s[1] == rest[0] && s[2] == rest[1]);
    }
}

} // verus!
