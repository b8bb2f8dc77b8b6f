//! Percent-encoding of path segments.

use vstd::prelude::*;
use vstd::string::*;
use vstd::utf8::*;

verus! {

/// Whether a byte stands for itself in an encoded segment: ASCII letters and
/// digits, and `-`, `_`, `.` and `~`.
pub open spec fn unreserved(b: u8) -> bool {
    ||| 48 <= b <= 57
    ||| 65 <= b <= 90
    ||| 97 <= b <= 122
    ||| b == 45
    ||| b == 95
    ||| b == 46
    ||| b == 126
}

/// The hexadecimal digit of a value below sixteen, in upper case.
pub open spec fn hex_digit(n: int) -> char {
    if n < 10 {
        (48 + n) as char
    } else {
        (55 + n) as char
    }
}

/// A byte as `%` and two hexadecimal digits.
pub open spec fn escaped(b: u8) -> Seq<char> {
    seq!['%', hex_digit(b as int / 16), hex_digit(b as int % 16)]
}

/// The encoding of one byte.
pub open spec fn encoded_byte(b: u8) -> Seq<char> {
    if unreserved(b) {
        seq![b as char]
    } else {
        escaped(b)
    }
}

/// The encoding of some bytes.
pub open spec fn encoded(bytes: Seq<u8>) -> Seq<char>
    decreases bytes.len(),
{
    if bytes.len() == 0 {
        Seq::empty()
    } else {
        encoded_byte(bytes[0]) + encoded(bytes.skip(1))
    }
}

/// The encoding of a text: that of its UTF-8 bytes.
pub open spec fn encoded_text(s: Seq<char>) -> Seq<char> {
    encoded(encode_utf8(s))
}

/// The value of a hexadecimal digit of either case.
pub open spec fn hex_value(c: char) -> Option<int> {
    if 48 <= c as u32 <= 57 {
        Some(c as u32 - 48)
    } else if 65 <= c as u32 <= 70 {
        Some(c as u32 - 55)
    } else if 97 <= c as u32 <= 102 {
        Some(c as u32 - 87)
    } else {
        None
    }
}

/// The bytes that an encoded text stands for: `%` with two hexadecimal digits
/// behind it is one byte, and everything else is itself.
pub open spec fn decoded(s: Seq<char>) -> Seq<u8>
    decreases s.len(),
{
    if s.len() == 0 {
        Seq::empty()
    } else if s[0] == '%' && s.len() >= 3 && hex_value(s[1]) is Some && hex_value(s[2]) is Some {
        seq![(16 * hex_value(s[1])->0 + hex_value(s[2])->0) as u8] + decoded(s.skip(3))
    } else {
        encode_utf8(seq![s[0]]) + decoded(s.skip(1))
    }
}

/// `percent_encoding::percent_encode_byte`: the byte as `%` and two hexadecimal
/// digits in upper case.
pub assume_specification[ percent_encoding::percent_encode_byte ](byte: u8) -> (r: &'static str)
    ensures
        r@ == escaped(byte),
;

/// What `percent_encoding::PercentDecode::decode_utf8_lossy` makes of bytes that are
/// no UTF-8.
pub uninterp spec fn lossy_text(bytes: Seq<u8>) -> Seq<char>;

/// The text that an encoded text stands for.
pub open spec fn decoded_text(s: Seq<char>) -> Seq<char> {
    if valid_utf8(decoded(s)) {
        decode_utf8(decoded(s))
    } else {
        lossy_text(decoded(s))
    }
}

/// Whether a byte stands for itself in an encoded segment.
fn is_unreserved(b: u8) -> (r: bool)
    ensures
        r == unreserved(b),
{
    (48 <= b && b <= 57) || (65 <= b && b <= 90) || (97 <= b && b <= 122) || b == 45 || b == 95
        || b == 46 || b == 126
}

/// Encodes a path segment.
pub fn enc(segment: &str) -> (r: String)
    ensures
        r@ == encoded_text(segment@),
{
    let bytes = segment.as_bytes();
    let mut out = String::new();
    let mut i: usize = 0;
    assert(bytes@.skip(0) =~= bytes@);
    while i < bytes.len()
        invariant
            i <= bytes@.len(),
            bytes@ == encode_utf8(segment@),
            out@ + encoded(bytes@.skip(i as int)) == encoded(bytes@),
        decreases bytes@.len() - i,
    {
        let b = bytes[i];
        let ghost before = out@;
        proof {
            assert(bytes@.skip(i as int)[0] == b);
            assert(bytes@.skip(i as int).skip(1) =~= bytes@.skip(i + 1));
        }
        if is_unreserved(b) {
            out.push(b as char);
        } else {
            out.append(percent_encoding::percent_encode_byte(b));
        }
        proof {
            assert(out@ =~= before + encoded_byte(b));
            assert(before + (encoded_byte(b) + encoded(bytes@.skip(i + 1))) =~= (before
                + encoded_byte(b)) + encoded(bytes@.skip(i + 1)));
        }
        i += 1;
    }
    assert(bytes@.skip(i as int).len() == 0);
    assert(out@ =~= encoded(bytes@));
    out
}

/// `percent_encoding::percent_decode_str`, then `decode_utf8_lossy`. Where the
/// decoded bytes are UTF-8, the result is their text. Elsewhere the parts that are
/// no UTF-8 come out as replacement characters; how they are cut up is not said here.
#[verifier::external_body]
fn decode_lossy(s: &str) -> (r: String)
    ensures
        r@ == (if valid_utf8(decoded(s@)) {
            decode_utf8(decoded(s@))
        } else {
            lossy_text(decoded(s@))
        }),
{
    percent_encoding::percent_decode_str(s).decode_utf8_lossy().into_owned()
}

/// Decodes a path segment.
pub fn dec(s: &str) -> (r: String)
    ensures
        r@ == decoded_text(s@),
{
    decode_lossy(s)
}

/// The digits of a byte stand for it.
pub proof fn lemma_hex(b: u8)
    ensures
        hex_value(hex_digit(b as int / 16)) == Some(b as int / 16),
        hex_value(hex_digit(b as int % 16)) == Some(b as int % 16),
        16 * (b as int / 16) + b as int % 16 == b,
{
}

/// An ASCII character is one byte.
pub proof fn lemma_ascii_byte(b: u8)
    requires
        b < 128,
    ensures
        encode_utf8(seq![b as char]) == seq![b],
{
    let c = b as char;
    assert(seq![c].drop_first() =~= Seq::<char>::empty());
    assert(encode_utf8(Seq::<char>::empty()) =~= Seq::<u8>::empty());
    let u = c as u32;
    assert(u == b as u32);
    assert(has_width_1_encoding(u));
    assert((u & 0x7F) as u8 == b) by (bit_vector)
        requires
            u == b as u32,
            b < 128,
    ;
    assert(encode_scalar(u) =~= seq![b]);
    assert(encode_utf8(seq![c]) =~= seq![b]);
}

proof fn lemma_decoded_encoded(bytes: Seq<u8>)
    ensures
        decoded(encoded(bytes)) == bytes,
    decreases bytes.len(),
{
    if bytes.len() > 0 {
        let b = bytes[0];
        let rest = encoded(bytes.skip(1));
        lemma_decoded_encoded(bytes.skip(1));
        let s = encoded(bytes);
        if unreserved(b) {
            assert(s[0] == b as char);
            lemma_ascii_byte(b);
            assert(s.skip(1) =~= rest);
            assert(s[0] != '%');
            assert(decoded(s) == seq![b] + decoded(rest));
        } else {
            lemma_hex(b);
            assert(s[0] == '%');
            assert(s[1] == hex_digit(b as int / 16));
            assert(s[2] == hex_digit(b as int % 16));
            assert(s.skip(3) =~= rest);
        }
        assert(seq![b] + bytes.skip(1) =~= bytes);
    }
}

/// Decoding gives back what was encoded: `dec` returns what `enc` was given.
pub proof fn dec_of_enc(s: Seq<char>)
    ensures
        decoded_text(encoded_text(s)) == s,
{
    lemma_decoded_encoded(encode_utf8(s));
    encode_utf8_valid_utf8(s);
    encode_utf8_decode_utf8(s);
}

/// A text without `%` stands for itself.
pub proof fn dec_of_plain(s: Seq<char>)
    requires
        !s.contains('%'),
    ensures
        decoded_text(s) == s,
{
    lemma_decoded_plain(s);
    encode_utf8_valid_utf8(s);
    encode_utf8_decode_utf8(s);
}

proof fn lemma_decoded_plain(s: Seq<char>)
    requires
        !s.contains('%'),
    ensures
        decoded(s) == encode_utf8(s),
    decreases s.len(),
{
    if s.len() > 0 {
        assert(s[0] != '%') by {
            assert(s.contains(s[0]));
        }
        assert(!s.skip(1).contains('%')) by {
            if s.skip(1).contains('%') {
                let i = choose|i: int| 0 <= i < s.skip(1).len() && s.skip(1)[i] == '%';
                assert(s[i + 1] == '%');
            }
        }
        lemma_decoded_plain(s.skip(1));
        let first = seq![s[0]];
        assert(first.drop_first() =~= Seq::<char>::empty());
        assert(encode_utf8(Seq::<char>::empty()) =~= Seq::<u8>::empty());
        assert(s.drop_first() =~= s.skip(1));
        assert(encode_utf8(first) =~= encode_scalar(s[0] as u32));
        assert(encode_utf8(s) =~= encode_scalar(s[0] as u32) + encode_utf8(s.skip(1)));
    }
}

/// An encoded segment holds only unreserved characters and `%`; no `/`, `?` or `#`
/// can end it early.
pub proof fn enc_is_one_segment(s: Seq<char>)
    ensures
        forall|i: int|
            0 <= i < encoded_text(s).len() ==> (#[trigger] encoded_text(s)[i] == '%'
                || exists|b: u8| unreserved(b) && encoded_text(s)[i] == b as char),
{
    lemma_encoded_characters(encode_utf8(s));
}

proof fn lemma_encoded_characters(bytes: Seq<u8>)
    ensures
        forall|i: int|
            0 <= i < encoded(bytes).len() ==> (#[trigger] encoded(bytes)[i] == '%' || exists|b: u8|
                unreserved(b) && encoded(bytes)[i] == b as char),
    decreases bytes.len(),
{
    if bytes.len() > 0 {
        let b = bytes[0];
        let rest = encoded(bytes.skip(1));
        lemma_encoded_characters(bytes.skip(1));
        let s = encoded(bytes);
        assert forall|i: int| 0 <= i < s.len() implies (#[trigger] s[i] == '%' || exists|b: u8|
            unreserved(b) && s[i] == b as char) by {
            let n = encoded_byte(b).len() as int;
            if i >= n {
                assert(s[i] == rest[i - n]);
            } else if unreserved(b) {
                assert(s[i] == b as char);
            } else {
                lemma_hex(b);
                if i > 0 {
                    let d = if i == 1 { b as int / 16 } else { b as int % 16 };
                    let x = (if d < 10 { 48 + d } else { 55 + d }) as u8;
                    assert(unreserved(x) && s[i] == x as char);
                }
            }
        }
    }
}

} // verus!
