//! Texts in dictionary order.

use crate::string_map;
use crate::text;
use vstd::prelude::*;

verus! {

/// Of two different texts, one comes before the other.
pub proof fn order_is_total(a: Seq<char>, b: Seq<char>)
    ensures
        a != b ==> text::precedes(a, b) != text::precedes(b, a),
        a == b ==> !text::precedes(a, b),
    decreases a.len(),
{
    if a == b {
        text::lemma_precedes_irreflexive(a);
    } else if a.len() > 0 && b.len() > 0 {
        if a[0] == b[0] {
            order_is_total(a.skip(1), b.skip(1));
            if a.skip(1) == b.skip(1) {
                assert(a =~= seq![a[0]] + a.skip(1));
                assert(b =~= seq![b[0]] + b.skip(1));
            }
        } else {
            vstd::utf8::char_u32_cast(a[0], a[0] as u32);
            vstd::utf8::char_u32_cast(b[0], b[0] as u32);
            assert(a[0] as u32 != b[0] as u32);
            assert(text::precedes(a, b) == ((a[0] as u32) < (b[0] as u32)));
            assert(text::precedes(b, a) == ((b[0] as u32) < (a[0] as u32)));
        }
    } else if a.len() == 0 && b.len() == 0 {
        assert(a =~= b);
    }
}

/// A text comes before all texts that begin with it, and otherwise the first character in
/// which two texts differ decides.
pub proof fn first_difference_decides(
    front: Seq<char>,
    x: char,
    y: char,
    a: Seq<char>,
    b: Seq<char>,
)
    ensures
        text::precedes(front, front + seq![x] + a),
        (x as u32) < (y as u32) ==> text::precedes(front + seq![x] + a, front + seq![y] + b),
    decreases front.len(),
{
    let whole = front + seq![x] + a;
    let other = front + seq![y] + b;
    if front.len() > 0 {
        first_difference_decides(front.skip(1), x, y, a, b);
        assert(whole.skip(1) =~= front.skip(1) + seq![x] + a);
        assert(other.skip(1) =~= front.skip(1) + seq![y] + b);
    } else {
        assert(whole[0] == x && other[0] == y);
    }
}

proof fn lemma_insert(s: Seq<Seq<char>>, x: Seq<char>) -> (r: Seq<Seq<char>>)
    requires
        string_map::ascending(s),
        !s.contains(x),
    ensures
        string_map::ascending(r),
        forall|k: Seq<char>| #[trigger] r.contains(k) <==> s.contains(k) || k == x,
    decreases s.len(),
{
    if s.len() == 0 {
        let r = seq![x];
        assert(r[0] == x);
        r
    } else {
        let last = s.last();
        assert(s.contains(last));
        order_is_total(last, x);
        if text::precedes(last, x) {
            let r = s.push(x);
            assert forall|i: int, j: int| 0 <= i < j < r.len() implies text::precedes(
                #[trigger] r[i],
                #[trigger] r[j],
            ) by {
                if j == s.len() && i < s.len() - 1 {
                    assert(text::precedes(s[i], s[s.len() - 1]));
                    text::lemma_precedes_transitive(s[i], last, x);
                }
            }
            assert forall|k: Seq<char>| #[trigger] r.contains(k) <==> s.contains(k) || k == x by {
                if s.contains(k) {
                    let j = choose|j: int| 0 <= j < s.len() && s[j] == k;
                    assert(r[j] == k);
                }
                assert(r[s.len() as int] == x);
            }
            r
        } else {
            let front = s.drop_last();
            assert(!front.contains(x)) by {
                if front.contains(x) {
                    let j = choose|j: int| 0 <= j < front.len() && front[j] == x;
                    assert(s[j] == x);
                }
            }
            let t = lemma_insert(front, x);
            let r = t.push(last);
            assert forall|i: int, j: int| 0 <= i < j < r.len() implies text::precedes(
                #[trigger] r[i],
                #[trigger] r[j],
            ) by {
                if j == t.len() {
                    assert(t.contains(t[i]));
                    if t[i] != x {
                        assert(front.contains(t[i]));
                        let n = choose|n: int| 0 <= n < front.len() && front[n] == t[i];
                        assert(text::precedes(s[n], s[s.len() - 1]));
                    }
                }
            }
            assert forall|k: Seq<char>| #[trigger] r.contains(k) <==> s.contains(k) || k == x by {
                if r.contains(k) {
                    let j = choose|j: int| 0 <= j < r.len() && r[j] == k;
                    if j < t.len() {
                        assert(t.contains(k));
                        if k != x {
                            let n = choose|n: int| 0 <= n < front.len() && front[n] == k;
                            assert(s[n] == k);
                        }
                    }
                }
                if s.contains(k) {
                    let j = choose|j: int| 0 <= j < s.len() && s[j] == k;
                    if j < s.len() - 1 {
                        assert(front[j] == k);
                        assert(t.contains(k));
                        let n = choose|n: int| 0 <= n < t.len() && t[n] == k;
                        assert(r[n] == k);
                    } else {
                        assert(r[t.len() as int] == k);
                    }
                }
                if k == x {
                    assert(t.contains(x));
                    let n = choose|n: int| 0 <= n < t.len() && t[n] == x;
                    assert(r[n] == x);
                }
            }
            r
        }
    }
}

proof fn lemma_some_order(keys: Set<Seq<char>>) -> (r: Seq<Seq<char>>)
    requires
        keys.finite(),
    ensures
        string_map::ascending(r),
        r.to_set() == keys,
    decreases keys.len(),
{
    if keys.len() == 0 {
        let r = Seq::<Seq<char>>::empty();
        assert(r.to_set() =~= keys);
        r
    } else {
        let x = keys.choose();
        let s = lemma_some_order(keys.remove(x));
        assert(!s.contains(x)) by {
            if s.contains(x) {
                assert(s.to_set().contains(x));
            }
        }
        let r = lemma_insert(s, x);
        assert forall|k: Seq<char>| r.to_set().contains(k) == keys.contains(k) by {
            assert(s.to_set().contains(k) == s.contains(k));
            assert(r.to_set().contains(k) == r.contains(k));
        }
        assert(r.to_set() =~= keys);
        r
    }
}

/// The texts of a finite set in dictionary order are all of them, each once, and each comes
/// before those behind it.
pub proof fn order_lists_all(keys: Set<Seq<char>>)
    requires
        keys.finite(),
    ensures
        forall|k: Seq<char>| #[trigger]
            string_map::in_order(keys).contains(k) <==> keys.contains(k),
        forall|i: int, j: int|
            0 <= i < j < string_map::in_order(keys).len() ==> text::precedes(
                #[trigger] string_map::in_order(keys)[i],
                #[trigger] string_map::in_order(keys)[j],
            ),
        string_map::in_order(keys).no_duplicates(),
{
    let r = lemma_some_order(keys);
    let s = string_map::in_order(keys);
    assert(string_map::ascending(s) && s.to_set() == keys);
    assert forall|k: Seq<char>| #[trigger] s.contains(k) <==> keys.contains(k) by {
        assert(s.to_set().contains(k) == s.contains(k));
    }
    assert forall|i: int, j: int| 0 <= i < s.len() && 0 <= j < s.len() && i != j implies s[i]
        != s[j] by {
        if i < j {
            assert(text::precedes(s[i], s[j]));
        } else {
            assert(text::precedes(s[j], s[i]));
        }
        text::lemma_precedes_irreflexive(s[i]);
    }
}

/// What a filter keeps of a list is what it admits, and all of that.
pub proof fn lemma_filtered(s: Seq<Seq<char>>, pred: spec_fn(Seq<char>) -> bool)
    ensures
        forall|k: Seq<char>| #[trigger] s.filter(pred).contains(k) <==> s.contains(k) && pred(k),
    decreases s.len(),
{
    reveal(Seq::filter);
    if s.len() > 0 {
        let front = s.drop_last();
        lemma_filtered(front, pred);
        let f = front.filter(pred);
        let g = s.filter(pred);
        assert forall|k: Seq<char>| #[trigger] g.contains(k) <==> s.contains(k) && pred(k) by {
            if g.contains(k) {
                let j = choose|j: int| 0 <= j < g.len() && g[j] == k;
                if j < f.len() {
                    assert(f[j] == k);
                    assert(f.contains(k));
                    let n = choose|n: int| 0 <= n < front.len() && front[n] == k;
                    assert(s[n] == k);
                } else {
                    assert(s[s.len() - 1] == k);
                }
            }
            if s.contains(k) && pred(k) {
                let n = choose|n: int| 0 <= n < s.len() && s[n] == k;
                if n < s.len() - 1 {
                    assert(front[n] == k);
                    assert(f.contains(k));
                    let j = choose|j: int| 0 <= j < f.len() && f[j] == k;
                    assert(g[j] == k);
                } else {
                    assert(g[g.len() - 1] == k);
                }
            }
        }
    }
}

/// What a filter keeps of a list in order is in order.
pub proof fn filter_keeps_the_order(s: Seq<Seq<char>>, pred: spec_fn(Seq<char>) -> bool)
    requires
        forall|i: int, j: int|
            0 <= i < j < s.len() ==> text::precedes(#[trigger] s[i], #[trigger] s[j]),
    ensures
        forall|i: int, j: int|
            0 <= i < j < s.filter(pred).len() ==> text::precedes(
                #[trigger] s.filter(pred)[i],
                #[trigger] s.filter(pred)[j],
            ),
    decreases s.len(),
{
    reveal(Seq::filter);
    if s.len() > 0 {
        let front = s.drop_last();
        filter_keeps_the_order(front, pred);
        lemma_filtered(front, pred);
        let f = front.filter(pred);
        let g = s.filter(pred);
        assert forall|i: int, j: int| 0 <= i < j < g.len() implies text::precedes(
            #[trigger] g[i],
            #[trigger] g[j],
        ) by {
            assert(g[i] == f[i]);
            if j < f.len() {
                assert(g[j] == f[j]);
            } else {
                assert(g[j] == s.last());
                assert(f.contains(f[i]));
                let n = choose|n: int| 0 <= n < front.len() && front[n] == f[i];
                assert(s[n] == f[i] && s[s.len() - 1] == s.last());
            }
        }
    }
}

} // verus!
