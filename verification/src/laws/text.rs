//! Texts taken apart and put together.

use crate::text;
use vstd::prelude::*;

verus! {

/// Stripping a prefix undoes putting it in front, and happens nowhere else.
pub proof fn prefix_is_stripped(s: Seq<char>, p: Seq<char>, rest: Seq<char>)
    ensures
        text::behind(s, p) == Some(rest) <==> s == p + rest,
        text::behind(s, p) matches Some(r) ==> s == p + r,
{
    if s == p + rest {
        assert(p.is_prefix_of(s));
        assert(s.skip(p.len() as int) =~= rest);
    }
    match text::behind(s, p) {
        Some(r) => {
            assert(s =~= p + r);
        },
        None => {},
    }
}

/// A text is parted at the first occurrence of a character: what stands before does not
/// hold it, and with the character between, the parts are the text again.
pub proof fn parts_make_the_text(s: Seq<char>, c: char)
    ensures
        text::parted(s, c) is Some <==> s.contains(c),
        text::parted(s, c) matches Some((a, b)) ==> s == a + seq![c] + b && !a.contains(c),
{
    if s.contains(c) {
        s.index_of_first_ensures(c);
        let i = s.index_of_first(c)->0;
        assert(s =~= s.take(i) + seq![c] + s.skip(i + 1));
        assert(!s.take(i).contains(c)) by {
            if s.take(i).contains(c) {
                let j = choose|j: int| 0 <= j < i && s.take(i)[j] == c;
                assert(s[j] == c);
            }
        }
    }
}

/// Pieces joined are the first, and then each behind a separator.
pub proof fn joining_appends(parts: Seq<Seq<char>>, last: Seq<char>, sep: Seq<char>)
    ensures
        text::joined(Seq::empty(), sep) == Seq::<char>::empty(),
        text::joined(seq![last], sep) == last,
        parts.len() > 0 ==> text::joined(parts.push(last), sep) == text::joined(parts, sep) + sep
            + last,
{
    assert(parts.push(last).drop_last() =~= parts);
}

/// Splitting a text loses nothing: the pieces hold no separator, and joined by it they are
/// the text again.
pub proof fn pieces_make_the_text(s: Seq<char>, sep: char)
    ensures
        text::split(s, sep).len() > 0,
        forall|i: int|
            0 <= i < text::split(s, sep).len() ==> !(#[trigger] text::split(s, sep)[i]).contains(
                sep,
            ),
        text::joined(text::split(s, sep), seq![sep]) == s,
    decreases s.len(),
{
    if s.len() == 0 {
        assert(text::joined(text::split(s, sep), seq![sep]) =~= s);
    } else {
        let front = s.drop_last();
        pieces_make_the_text(front, sep);
        let before = text::split(front, sep);
        let pieces = text::split(s, sep);
        if s.last() == sep {
            assert(pieces.drop_last() =~= before);
            assert(text::joined(pieces, seq![sep]) =~= text::joined(before, seq![sep]) + seq![sep]);
            assert(s =~= front + seq![sep]);
        } else {
            let last = before.last().push(s.last());
            assert(!last.contains(sep)) by {
                if last.contains(sep) {
                    let j = choose|j: int| 0 <= j < last.len() && last[j] == sep;
                    assert(before.last()[j] == sep);
                    assert(before[before.len() - 1].contains(sep));
                }
            }
            assert forall|i: int| 0 <= i < pieces.len() implies !(#[trigger] pieces[i]).contains(
                sep,
            ) by {
                if i < pieces.len() - 1 {
                    assert(pieces[i] == before[i]);
                }
            }
            if pieces.len() == 1 {
                assert(before.len() == 1);
                assert(text::joined(pieces, seq![sep]) == last);
                assert(text::joined(before, seq![sep]) == before[0]);
            } else {
                assert(pieces.drop_last() =~= before.drop_last());
                assert(text::joined(pieces, seq![sep]) =~= text::joined(
                    before,
                    seq![sep],
                ).push(s.last()));
            }
            assert(s =~= front.push(s.last()));
        }
    }
}

/// Pieces that hold no separator come back from the text that they make.
pub proof fn joined_pieces_come_back(parts: Seq<Seq<char>>, sep: char)
    requires
        parts.len() > 0,
        forall|i: int| 0 <= i < parts.len() ==> !(#[trigger] parts[i]).contains(sep),
    ensures
        text::split(text::joined(parts, seq![sep]), sep) == parts,
    decreases parts.len(),
{
    if parts.len() == 1 {
        text::lemma_split_one(parts[0], sep);
        assert(parts =~= seq![parts[0]]);
    } else {
        let front = parts.drop_last();
        assert forall|i: int| 0 <= i < front.len() implies !(#[trigger] front[i]).contains(sep) by {
            assert(front[i] == parts[i]);
        }
        joined_pieces_come_back(front, sep);
        lemma_split_behind(text::joined(front, seq![sep]), parts.last(), sep);
        assert(front.push(parts.last()) =~= parts);
    }
}

/// A piece without separators behind a separator is one piece more.
proof fn lemma_split_behind(a: Seq<char>, b: Seq<char>, sep: char)
    requires
        !b.contains(sep),
    ensures
        text::split(a + seq![sep] + b, sep) == text::split(a, sep).push(b),
    decreases b.len(),
{
    let whole = a + seq![sep] + b;
    if b.len() == 0 {
        assert(whole.drop_last() =~= a);
        assert(b =~= Seq::empty());
    } else {
        let front = b.drop_last();
        assert(!front.contains(sep)) by {
            if front.contains(sep) {
                let j = choose|j: int| 0 <= j < front.len() && front[j] == sep;
                assert(b[j] == sep);
            }
        }
        lemma_split_behind(a, front, sep);
        assert(whole.drop_last() =~= a + seq![sep] + front);
        assert(b.contains(b.last()));
        let before = text::split(a, sep).push(front);
        assert(before.drop_last() =~= text::split(a, sep));
        assert(front.push(b.last()) =~= b);
    }
}

/// Some occurrences of one character.
pub open spec fn repeated(c: char, n: nat) -> Seq<char> {
    Seq::new(n, |i: int| c)
}

/// Trimming takes off all occurrences of a character at one end, and nothing else.
pub proof fn trimming_takes_one_end(s: Seq<char>, c: char)
    ensures
        exists|n: nat| s == #[trigger] repeated(c, n) + text::trimmed_start(s, c),
        text::trimmed_start(s, c).len() > 0 ==> text::trimmed_start(s, c)[0] != c,
        exists|n: nat| s == text::trimmed_end(s, c) + #[trigger] repeated(c, n),
        text::trimmed_end(s, c).len() > 0 ==> text::trimmed_end(s, c).last() != c,
    decreases s.len(),
{
    if s.len() > 0 && s[0] == c {
        trimming_takes_one_end(s.skip(1), c);
        let n = choose|n: nat|
            s.skip(1) == #[trigger] repeated(c, n) + text::trimmed_start(s.skip(1), c);
        assert(s =~= seq![c] + s.skip(1));
        assert(repeated(c, n + 1) =~= seq![c] + repeated(c, n));
        assert(s =~= repeated(c, n + 1) + text::trimmed_start(s, c));
    } else {
        assert(s =~= repeated(c, 0) + text::trimmed_start(s, c));
    }
    if s.len() > 0 && s.last() == c {
        trimming_takes_one_end(s.drop_last(), c);
        let n = choose|n: nat|
            s.drop_last() == text::trimmed_end(s.drop_last(), c) + #[trigger] repeated(c, n);
        assert(s =~= s.drop_last().push(c));
        assert(repeated(c, n + 1) =~= repeated(c, n).push(c));
        assert(s =~= text::trimmed_end(s, c) + repeated(c, n + 1));
    } else {
        assert(s =~= text::trimmed_end(s, c) + repeated(c, 0));
    }
}

/// The piece that a prefix finds is the first that begins with it, and it finds one wherever
/// there is one.
pub proof fn prefix_finds_the_first(pieces: Seq<Seq<char>>, p: Seq<char>)
    ensures
        text::first_behind(pieces, p) matches Some(r) ==> exists|i: int|
            0 <= i < pieces.len() && #[trigger] pieces[i] == p + r && forall|j: int|
                0 <= j < i ==> !p.is_prefix_of(#[trigger] pieces[j]),
        text::first_behind(pieces, p) is None ==> forall|i: int|
            0 <= i < pieces.len() ==> !p.is_prefix_of(#[trigger] pieces[i]),
    decreases pieces.len(),
{
    if pieces.len() > 0 {
        let rest = pieces.skip(1);
        prefix_finds_the_first(rest, p);
        prefix_is_stripped(pieces[0], p, Seq::empty());
        if text::behind(pieces[0], p) is None {
            assert(!p.is_prefix_of(pieces[0]));
            match text::first_behind(pieces, p) {
                Some(r) => {
                    let i = choose|i: int|
                        0 <= i < rest.len() && #[trigger] rest[i] == p + r && forall|j: int|
                            0 <= j < i ==> !p.is_prefix_of(#[trigger] rest[j]);
                    assert(pieces[i + 1] == p + r);
                    assert forall|j: int| 0 <= j < i + 1 implies !p.is_prefix_of(
                        #[trigger] pieces[j],
                    ) by {
                        if j > 0 {
                            assert(pieces[j] == rest[j - 1]);
                        }
                    }
                },
                None => {
                    assert forall|i: int| 0 <= i < pieces.len() implies !p.is_prefix_of(
                        #[trigger] pieces[i],
                    ) by {
                        if i > 0 {
                            assert(pieces[i] == rest[i - 1]);
                        }
                    }
                },
            }
        } else {
            let r = text::behind(pieces[0], p)->0;
            assert(pieces[0] == p + r);
        }
    }
}

} // verus!
