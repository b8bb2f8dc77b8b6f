//! Maps from text to values, kept in dictionary order of their keys.

use crate::text;
use crate::text::{same_text, side_of, Side};
use vstd::prelude::*;

verus! {

/// The map that a list of entries stands for.
pub open spec fn entries_map<V>(entries: Seq<(String, V)>) -> Map<Seq<char>, V>
    decreases entries.len(),
{
    if entries.len() == 0 {
        Map::empty()
    } else {
        entries_map(entries.drop_last()).insert(entries.last().0@, entries.last().1)
    }
}

/// The keys of a list of entries, in order.
pub open spec fn entries_keys<V>(entries: Seq<(String, V)>) -> Seq<Seq<char>> {
    entries.map_values(|e: (String, V)| e.0@)
}

/// Whether the texts stand in strict dictionary order.
pub open spec fn ascending(keys: Seq<Seq<char>>) -> bool {
    forall|i: int, j: int| 0 <= i < j < keys.len() ==> text::precedes(#[trigger] keys[i], #[trigger] keys[j])
}

/// A map from text to values. No key occurs twice, and the entries are kept in
/// dictionary order of their keys.
pub struct StringMap<V> {
    pub(crate) entries: Vec<(String, V)>,
}

/// The texts of a finite set in dictionary order.
pub open spec fn in_order(keys: Set<Seq<char>>) -> Seq<Seq<char>> {
    choose|s: Seq<Seq<char>>| ascending(s) && s.to_set() == keys
}

/// Two lists in strict dictionary order that hold the same texts are the same.
proof fn lemma_ascending_unique(a: Seq<Seq<char>>, b: Seq<Seq<char>>)
    requires
        ascending(a),
        ascending(b),
        a.to_set() == b.to_set(),
    ensures
        a == b,
    decreases a.len(),
{
    assert forall|k: Seq<char>| a.contains(k) == b.contains(k) by {
        assert(a.contains(k) == a.to_set().contains(k));
        assert(b.contains(k) == b.to_set().contains(k));
    }
    if a.len() == 0 {
        if b.len() > 0 {
            assert(b.contains(b[0]));
        }
        assert(a =~= b);
    } else {
        assert(a.contains(a[0]));
        assert(b.contains(b[0]));
        let i = choose|i: int| 0 <= i < b.len() && b[i] == a[0];
        let j = choose|j: int| 0 <= j < a.len() && a[j] == b[0];
        if a[0] != b[0] {
            assert(text::precedes(b[0], b[i]));
            assert(text::precedes(a[0], a[j]));
            text::lemma_precedes_transitive(a[0], b[0], a[0]);
            text::lemma_precedes_irreflexive(a[0]);
        }
        let ta = a.skip(1);
        let tb = b.skip(1);
        assert forall|k: Seq<char>| ta.contains(k) == tb.contains(k) by {
            if ta.contains(k) {
                let x = choose|x: int| 0 <= x < ta.len() && ta[x] == k;
                assert(a[x + 1] == k);
                assert(text::precedes(a[0], a[x + 1]));
                text::lemma_precedes_irreflexive(a[0]);
                assert(b.contains(k));
                let y = choose|y: int| 0 <= y < b.len() && b[y] == k;
                assert(tb[y - 1] == k);
            }
            if tb.contains(k) {
                let x = choose|x: int| 0 <= x < tb.len() && tb[x] == k;
                assert(b[x + 1] == k);
                assert(text::precedes(b[0], b[x + 1]));
                text::lemma_precedes_irreflexive(b[0]);
                assert(a.contains(k));
                let y = choose|y: int| 0 <= y < a.len() && a[y] == k;
                assert(ta[y - 1] == k);
            }
        }
        assert(ta.to_set() =~= tb.to_set());
        lemma_ascending_unique(ta, tb);
        assert(a =~= seq![a[0]] + ta);
        assert(b =~= seq![b[0]] + tb);
    }
}

pub(crate) proof fn lemma_entries_map<V>(entries: Seq<(String, V)>)
    requires
        ascending(entries_keys(entries)),
    ensures
        forall|k: Seq<char>| #[trigger]
            entries_map(entries).contains_key(k) <==> entries_keys(entries).contains(k),
        forall|i: int|
            0 <= i < entries.len() ==> entries_map(entries).contains_key(
                (#[trigger] entries[i]).0@,
            ) && entries_map(entries)[entries[i].0@] == entries[i].1,
    decreases entries.len(),
{
    let keys = entries_keys(entries);
    if entries.len() > 0 {
        let front = entries.drop_last();
        assert(entries_keys(front) =~= keys.drop_last());
        lemma_entries_map(front);
        assert(keys.last() == entries.last().0@);
        assert forall|k: Seq<char>| #[trigger] entries_map(entries).contains_key(k) implies keys.contains(k) by {
            if k != entries.last().0@ {
                assert(entries_map(front).contains_key(k));
                assert(entries_keys(front).contains(k));
                let i = choose|i: int| 0 <= i < keys.drop_last().len() && keys.drop_last()[i] == k;
                assert(keys[i] == k);
            } else {
                assert(keys[entries.len() - 1] == k);
            }
        }
        assert forall|k: Seq<char>| #[trigger] keys.contains(k) implies entries_map(entries).contains_key(k) by {
            let i = choose|i: int| 0 <= i < keys.len() && keys[i] == k;
            if i < keys.len() - 1 {
                assert(keys.drop_last()[i] == k);
            }
        }
        assert forall|i: int| 0 <= i < entries.len() implies entries_map(entries).contains_key(
            (#[trigger] entries[i]).0@,
        ) && entries_map(entries)[entries[i].0@] == entries[i].1 by {
            if i < entries.len() - 1 {
                assert(front[i] == entries[i]);
                assert(text::precedes(keys[i], keys[entries.len() - 1]));
                text::lemma_precedes_irreflexive(keys[i]);
            }
        }
    }
}

/// A map's entries and the map say the same of a key that stands at a given place.
proof fn lemma_same_map<V>(a: Seq<(String, V)>, m: Map<Seq<char>, V>)
    requires
        ascending(entries_keys(a)),
        forall|k: Seq<char>| #[trigger] m.contains_key(k) ==> exists|i: int|
            0 <= i < a.len() && (#[trigger] a[i]).0@ == k,
        forall|i: int| 0 <= i < a.len() ==> m.contains_key((#[trigger] a[i]).0@) && m[a[i].0@] == a[i].1,
    ensures
        entries_map(a) == m,
{
    lemma_entries_map(a);
    let n = entries_map(a);
    assert forall|k: Seq<char>| n.contains_key(k) implies m.contains_key(k) && m[k] == n[k] by {
        assert(entries_keys(a).contains(k));
        let i = choose|i: int| 0 <= i < entries_keys(a).len() && entries_keys(a)[i] == k;
        assert(a[i].0@ == k);
    }
    assert forall|k: Seq<char>| m.contains_key(k) implies n.contains_key(k) by {
        let i = choose|i: int| 0 <= i < a.len() && (#[trigger] a[i]).0@ == k;
        assert(entries_keys(a)[i] == k);
    }
    assert(n =~= m);
}

/// What a map stands for is what its entries stand for.
pub(crate) proof fn lemma_view<V>(m: StringMap<V>)
    ensures
        m@ == entries_map(m.entries@),
        m.keys() == entries_keys(m.entries@),
{
}

impl<V> StringMap<V> {
    #[verifier::type_invariant]
    pub(crate) closed spec fn wf(self) -> bool {
        ascending(entries_keys(self.entries@))
    }

    /// The map from keys to values.
    pub closed spec fn view(&self) -> Map<Seq<char>, V> {
        entries_map(self.entries@)
    }

    /// The keys in dictionary order.
    pub closed spec fn keys(&self) -> Seq<Seq<char>> {
        entries_keys(self.entries@)
    }

    /// A map without entries.
    pub fn new() -> (r: Self)
        ensures
            r@ == Map::<Seq<char>, V>::empty(),
    {
        StringMap { entries: Vec::new() }
    }

    /// The map of the given entries, which stand in dictionary order of their keys.
    pub(crate) fn from_entries(entries: Vec<(String, V)>) -> (r: Self)
        requires
            ascending(entries_keys(entries@)),
        ensures
            r.entries@ == entries@,
    {
        StringMap { entries }
    }

    /// The entries stand in dictionary order of their keys.
    pub(crate) fn sorted(&self)
        ensures
            ascending(entries_keys(self.entries@)),
    {
        proof {
            use_type_invariant(self);
        }
    }

    /// How many entries the map has.
    pub fn len(&self) -> (n: usize)
        ensures
            n == self.keys().len(),
            ascending(self.keys()),
            self.keys() == in_order(self@.dom()),
            forall|k: Seq<char>| #[trigger] self@.contains_key(k) <==> self.keys().contains(k),
    {
        proof {
            use_type_invariant(self);
            lemma_entries_map(self.entries@);
            let keys = self.keys();
            assert forall|k: Seq<char>| keys.to_set().contains(k) == self@.dom().contains(k) by {
                assert(self@.contains_key(k) == keys.contains(k));
            }
            assert(keys.to_set() =~= self@.dom());
            lemma_ascending_unique(keys, in_order(self@.dom()));
        }
        self.entries.len()
    }

    /// The entry at place `i` of the dictionary order.
    pub fn entry_at(&self, i: usize) -> (r: (&String, &V))
        requires
            i < self.keys().len(),
        ensures
            r.0@ == self.keys()[i as int],
            self@.contains_key(r.0@),
            self@[r.0@] == *r.1,
    {
        proof {
            use_type_invariant(self);
            lemma_entries_map(self.entries@);
        }
        let e = &self.entries[i];
        (&e.0, &e.1)
    }

    /// The value under `key`.
    pub fn get(&self, key: &str) -> (r: Option<&V>)
        ensures
            match r {
                Some(v) => self@.contains_key(key@) && self@[key@] == *v,
                None => !self@.contains_key(key@),
            },
    {
        proof {
            use_type_invariant(self);
            lemma_entries_map(self.entries@);
        }
        let mut i: usize = 0;
        while i < self.entries.len()
            invariant
                i <= self.entries@.len(),
                forall|j: int| 0 <= j < i ==> (#[trigger] self.entries@[j]).0@ != key@,
            decreases self.entries@.len() - i,
        {
            if same_text(self.entries[i].0.as_str(), key) {
                proof {
                    use_type_invariant(self);
                    lemma_entries_map(self.entries@);
                    assert(self.entries@[i as int].0@ == key@);
                }
                return Some(&self.entries[i].1);
            }
            i += 1;
        }
        proof {
            use_type_invariant(self);
            lemma_entries_map(self.entries@);
            if self@.contains_key(key@) {
                let keys = entries_keys(self.entries@);
                let j = choose|j: int| 0 <= j < keys.len() && keys[j] == key@;
                assert(self.entries@[j].0@ == key@);
            }
        }
        None
    }

    /// Puts `value` under `key`, in place of what was there.
    pub fn insert(&mut self, key: String, value: V)
        ensures
            final(self)@ == old(self)@.insert(key@, value),
    {
        proof {
            use_type_invariant(&*self);
        }
        let mut entries: Vec<(String, V)> = Vec::new();
        std::mem::swap(&mut entries, &mut self.entries);
        let ghost before = entries@;
        proof {
            lemma_entries_map(before);
        }
        let mut i: usize = entries.len();
        while i > 0
            invariant
                i <= entries@.len(),
                entries@ == before,
                ascending(entries_keys(before)),
                forall|j: int|
                    i <= j < before.len() ==> text::precedes(key@, (#[trigger] before[j]).0@),
            ensures
                i <= entries@.len(),
                entries@ == before,
                forall|j: int|
                    i <= j < before.len() ==> text::precedes(key@, (#[trigger] before[j]).0@),
                i > 0 ==> before[i - 1].0@ == key@ || text::precedes(before[i - 1].0@, key@),
            decreases i,
        {
            match side_of(key.as_str(), entries[i - 1].0.as_str()) {
                Side::Before => {
                    i -= 1;
                },
                Side::Same => {
                    break ;
                },
                Side::After => {
                    break ;
                },
            }
        }
        let replaces = i > 0 && same_text(entries[i - 1].0.as_str(), key.as_str());
        if replaces {
            i -= 1;
            let _ = entries.remove(i);
        }
        let ghost middle = entries@;
        entries.insert(i, (key, value));
        proof {
            let ghost after = entries@;
            let bk = entries_keys(before);
            let ak = entries_keys(after);
            assert forall|a: int, b: int| 0 <= a < b < ak.len() implies text::precedes(
                #[trigger] ak[a],
                #[trigger] ak[b],
            ) by {
                let shift: int = if replaces { 0 } else { 1 };
                let oa: int = if a > i { a - shift } else { a };
                let ob: int = if b > i { b - shift } else { b };
                if a != i {
                    assert(after[a] == before[oa]);
                    assert(ak[a] == bk[oa]);
                }
                if b != i {
                    assert(after[b] == before[ob]);
                    assert(ak[b] == bk[ob]);
                }
                if a != i && b != i {
                    assert(text::precedes(bk[oa], bk[ob]));
                } else if a == i {
                    if replaces {
                        assert(bk[i as int] == key@);
                        assert(text::precedes(bk[i as int], bk[ob]));
                    }
                } else {
                    if replaces {
                        assert(bk[i as int] == key@);
                        assert(text::precedes(bk[oa], bk[i as int]));
                    } else {
                        if oa < i - 1 {
                            assert(text::precedes(bk[oa], bk[i - 1]));
                            text::lemma_precedes_transitive(bk[oa], bk[i - 1], key@);
                        }
                    }
                }
            }
            let m = entries_map(before).insert(key@, value);
            assert forall|k: Seq<char>| #[trigger] m.contains_key(k) implies exists|j: int|
                0 <= j < after.len() && (#[trigger] after[j]).0@ == k by {
                if k == key@ {
                    assert(after[i as int].0@ == k);
                } else {
                    assert(bk.contains(k));
                    let j = choose|j: int| 0 <= j < bk.len() && bk[j] == k;
                    assert(before[j].0@ == k);
                    if j < i {
                        assert(after[j] == before[j]);
                    } else {
                        let nj = if replaces { j } else { j + 1 };
                        assert(after[nj] == before[j]);
                    }
                }
            }
            assert forall|j: int| 0 <= j < after.len() implies m.contains_key((#[trigger] after[j]).0@)
                && m[after[j].0@] == after[j].1 by {
                if j != i {
                    let oj: int = if j > i && !replaces { j - 1 } else { j };
                    assert(after[j] == before[oj]);
                    assert(ak[j] == after[j].0@);
                    assert(ak[i as int] == key@);
                    if j < i {
                        assert(text::precedes(ak[j], ak[i as int]));
                    } else {
                        assert(text::precedes(ak[i as int], ak[j]));
                    }
                    text::lemma_precedes_irreflexive(key@);
                }
            }
            lemma_same_map(after, m);
        }
        self.entries = entries;
    }

    /// Takes `key` out, and hands out its value.
    pub fn take(&mut self, key: &str) -> (r: Option<V>)
        ensures
            final(self)@ == old(self)@.remove(key@),
            match r {
                Some(v) => old(self)@.contains_key(key@) && old(self)@[key@] == v,
                None => !old(self)@.contains_key(key@),
            },
    {
        proof {
            use_type_invariant(&*self);
        }
        let mut entries: Vec<(String, V)> = Vec::new();
        std::mem::swap(&mut entries, &mut self.entries);
        let ghost before = entries@;
        let ghost bk = entries_keys(before);
        proof {
            lemma_entries_map(before);
        }
        let mut i: usize = 0;
        while i < entries.len()
            invariant
                i <= entries@.len(),
                entries@ == before,
                forall|j: int| 0 <= j < i ==> (#[trigger] before[j]).0@ != key@,
            ensures
                i <= entries@.len(),
                entries@ == before,
                forall|j: int| 0 <= j < i ==> (#[trigger] before[j]).0@ != key@,
                i < before.len() ==> before[i as int].0@ == key@,
            decreases entries@.len() - i,
        {
            if same_text(entries[i].0.as_str(), key) {
                break ;
            }
            i += 1;
        }
        let mut taken: Option<V> = None;
        if i < entries.len() {
            let entry = entries.remove(i);
            taken = Some(entry.1);
            proof {
                let after = entries@;
                let ak = entries_keys(after);
                assert forall|a: int, b: int| 0 <= a < b < ak.len() implies text::precedes(
                    #[trigger] ak[a],
                    #[trigger] ak[b],
                ) by {
                    let oa: int = if a >= i { a + 1 } else { a };
                    let ob: int = if b >= i { b + 1 } else { b };
                    assert(after[a] == before[oa]);
                    assert(after[b] == before[ob]);
                    assert(text::precedes(bk[oa], bk[ob]));
                }
                let m = entries_map(before).remove(key@);
                assert forall|k: Seq<char>| #[trigger] m.contains_key(k) implies exists|j: int|
                    0 <= j < after.len() && (#[trigger] after[j]).0@ == k by {
                    assert(bk.contains(k));
                    let j = choose|j: int| 0 <= j < bk.len() && bk[j] == k;
                    assert(before[j].0@ == k);
                    if j < i {
                        assert(after[j] == before[j]);
                    } else {
                        assert(after[j - 1] == before[j]);
                    }
                }
                assert forall|j: int| 0 <= j < after.len() implies m.contains_key(
                    (#[trigger] after[j]).0@,
                ) && m[after[j].0@] == after[j].1 by {
                    let oj: int = if j >= i { j + 1 } else { j };
                    assert(after[j] == before[oj]);
                    assert(bk[oj] == after[j].0@);
                    assert(bk[i as int] == key@);
                    if oj < i {
                        assert(text::precedes(bk[oj], bk[i as int]));
                    } else {
                        assert(text::precedes(bk[i as int], bk[oj]));
                    }
                    text::lemma_precedes_irreflexive(key@);
                }
                lemma_same_map(after, m);
            }
        } else {
            proof {
                if entries_map(before).contains_key(key@) {
                    let j = choose|j: int| 0 <= j < bk.len() && bk[j] == key@;
                    assert(before[j].0@ == key@);
                }
                assert(entries_map(before).remove(key@) =~= entries_map(before));
            }
        }
        self.entries = entries;
        taken
    }

    /// Takes `key` and its value out.
    pub fn remove(&mut self, key: &str)
        ensures
            final(self)@ == old(self)@.remove(key@),
    {
        let _ = self.take(key);
    }
}

/// The first `i + 1` keys are the first `i`, and one more.
pub proof fn lemma_next_prefix(keys: Seq<Seq<char>>, i: int)
    requires
        0 <= i < keys.len(),
    ensures
        keys.take(i + 1) == keys.take(i).push(keys[i]),
        forall|x: Seq<char>| #[trigger]
            keys.take(i + 1).contains(x) <==> keys.take(i).contains(x) || x == keys[i],
{
    let t = keys.take(i);
    assert(keys.take(i + 1) =~= t.push(keys[i]));
    assert forall|x: Seq<char>| #[trigger]
        keys.take(i + 1).contains(x) <==> t.contains(x) || x == keys[i] by {
        if t.contains(x) {
            let j = choose|j: int| 0 <= j < t.len() && t[j] == x;
            assert(t.push(keys[i])[j] == x);
        }
        if x == keys[i] {
            assert(t.push(keys[i])[t.len() as int] == x);
        }
    }
}

} // verus!
