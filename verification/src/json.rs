//! JSON values as the proxy reads and rewrites them.

use crate::string_map;
use crate::string_map::StringMap;
use crate::text;
use vstd::prelude::*;

verus! {

/// `serde_json::Number`: a JSON number. Its contents stay hidden.
#[verifier::external_type_specification]
#[verifier::external_body]
pub struct ExNumber(serde_json::Number);

/// What `serde_json::Number::as_u64` returns of a number.
pub uninterp spec fn number_natural(n: serde_json::Number) -> Option<u64>;

/// `serde_json::Number::as_u64`: the number as a natural number, where it is one
/// that fits.
#[verifier::external_body]
pub(crate) fn natural_of(n: &serde_json::Number) -> (r: Option<u64>)
    ensures
        r == number_natural(*n),
{
    n.as_u64()
}

/// `serde_json::Number::clone` gives the same number.
pub assume_specification[ <serde_json::Number as Clone>::clone ](n: &serde_json::Number) -> (r:
    serde_json::Number)
    ensures
        r == *n,
;

/// A JSON number that is no natural number of 64 bits: it is negative, has a
/// fraction or an exponent, or is too large.
pub struct OtherNumber {
    pub(crate) number: serde_json::Number,
}

impl OtherNumber {
    #[verifier::type_invariant]
    pub(crate) open spec fn wf(self) -> bool {
        number_natural(self.number) is None
    }

    /// The number itself.
    pub open(crate) spec fn view(&self) -> serde_json::Number {
        self.number
    }

    /// The number itself.
    pub fn get(&self) -> (r: serde_json::Number)
        ensures
            r == self@,
            number_natural(r) is None,
    {
        proof {
            use_type_invariant(self);
        }
        self.number.clone()
    }

    /// The given number, if it is no natural number.
    pub fn new(number: serde_json::Number) -> (r: Option<OtherNumber>)
        ensures
            match r {
                Some(n) => number_natural(number) is None && n@ == number,
                None => number_natural(number) is Some,
            },
    {
        match natural_of(&number) {
            Some(_) => None,
            None => Some(OtherNumber { number }),
        }
    }
}

/// A JSON value.
pub enum Json {
    Null,
    Bool(bool),
    Natural(u64),
    Number(OtherNumber),
    Str(String),
    Array(Vec<Json>),
    Object(StringMap<Json>),
}

/// What a JSON value says.
pub enum JsonView {
    Null,
    Bool(bool),
    Natural(u64),
    Number(serde_json::Number),
    Str(Seq<char>),
    Array(Seq<JsonView>),
    Object(Map<Seq<char>, JsonView>),
}

impl Json {
    pub open spec fn view(&self) -> JsonView
        decreases self,
    {
        match self {
            Json::Null => JsonView::Null,
            Json::Bool(b) => JsonView::Bool(*b),
            Json::Natural(n) => JsonView::Natural(*n),
            Json::Number(n) => JsonView::Number(n@),
            Json::Str(s) => JsonView::Str(s@),
            Json::Array(v) => JsonView::Array(array_view(v@)),
            Json::Object(m) => JsonView::Object(object_view(*m)),
        }
    }
}

/// The values of a list.
pub open spec fn array_view(v: Seq<Json>) -> Seq<JsonView>
    decreases v,
{
    Seq::new(
        v.len(),
        |i: int|
            if 0 <= i < v.len() {
                v[i].view()
            } else {
                JsonView::Null
            },
    )
}

/// A list has as many values as items, in the same order.
pub broadcast proof fn lemma_array_view(v: Seq<Json>)
    ensures
        (#[trigger] array_view(v)).len() == v.len(),
        forall|i: int| 0 <= i < v.len() ==> #[trigger] array_view(v)[i] == v[i].view(),
{
}

pub(crate) open spec fn entries_view(entries: Seq<(String, Json)>) -> Map<Seq<char>, JsonView>
    decreases entries,
{
    if entries.len() == 0 {
        Map::empty()
    } else {
        entries_view(entries.drop_last()).insert(entries.last().0@, entries.last().1.view())
    }
}

/// The members of an object.
pub closed spec fn object_view(m: StringMap<Json>) -> Map<Seq<char>, JsonView>
    decreases m,
{
    entries_view(m.entries@)
}

proof fn lemma_entries_view(entries: Seq<(String, Json)>)
    ensures
        entries_view(entries).dom() == string_map::entries_map(entries).dom(),
        forall|k: Seq<char>| #[trigger]
            string_map::entries_map(entries).contains_key(k) ==> entries_view(entries)[k]
                == string_map::entries_map(entries)[k].view(),
    decreases entries.len(),
{
    if entries.len() > 0 {
        lemma_entries_view(entries.drop_last());
        let a = string_map::entries_map(entries.drop_last());
        assert forall|k: Seq<char>| #[trigger]
            string_map::entries_map(entries).contains_key(k) implies entries_view(entries)[k]
            == string_map::entries_map(entries)[k].view() by {
            if k != entries.last().0@ {
                assert(a.contains_key(k));
            }
        }
        assert(entries_view(entries).dom() =~= string_map::entries_map(entries).dom());
    }
}

/// The members of an object are its map, each value by what it says.
pub proof fn lemma_object_view(m: StringMap<Json>)
    ensures
        object_view(m).dom() == m@.dom(),
        forall|k: Seq<char>| #[trigger] m@.contains_key(k) ==> object_view(m)[k] == m@[k].view(),
{
    string_map::lemma_view(m);
    lemma_entries_view(m.entries@);
}

/// The members of an object are its entries, each value by what it says.
pub(crate) proof fn lemma_object_entries(m: StringMap<Json>)
    ensures
        object_view(m) == entries_view(m.entries@),
{
}

/// What an optional JSON value says.
pub open spec fn opt_json(j: Option<&Json>) -> Option<JsonView> {
    match j {
        Some(v) => Some(v@),
        None => None,
    }
}

impl JsonView {
    /// The member of an object under `key`.
    pub open spec fn get(self, key: Seq<char>) -> Option<JsonView> {
        match self {
            JsonView::Object(m) => if m.contains_key(key) {
                Some(m[key])
            } else {
                None
            },
            _ => None,
        }
    }

    /// The text of a string value.
    pub open spec fn text(self) -> Option<Seq<char>> {
        match self {
            JsonView::Str(s) => Some(s),
            _ => None,
        }
    }

    /// The text of the string under `key`.
    pub open spec fn get_text(self, key: Seq<char>) -> Option<Seq<char>> {
        match self.get(key) {
            Some(v) => v.text(),
            None => None,
        }
    }

    /// The member under `inner` of the member under `outer`.
    pub open spec fn get2(self, outer: Seq<char>, inner: Seq<char>) -> Option<JsonView> {
        match self.get(outer) {
            Some(v) => v.get(inner),
            None => None,
        }
    }

    /// The text of the string under `inner` of the member under `outer`.
    pub open spec fn get2_text(self, outer: Seq<char>, inner: Seq<char>) -> Option<Seq<char>> {
        match self.get2(outer, inner) {
            Some(v) => v.text(),
            None => None,
        }
    }

    /// The natural number that the value is.
    pub open spec fn natural(self) -> Option<u64> {
        match self {
            JsonView::Natural(n) => Some(n),
            _ => None,
        }
    }

    /// The natural number under `key`.
    pub open spec fn get_natural(self, key: Seq<char>) -> Option<u64> {
        match self.get(key) {
            Some(v) => v.natural(),
            None => None,
        }
    }

    /// The values of the list under `key`.
    pub open spec fn get_list(self, key: Seq<char>) -> Option<Seq<JsonView>> {
        match self.get(key) {
            Some(JsonView::Array(v)) => Some(v),
            _ => None,
        }
    }

    /// The object with `value` under `key`, in place of what was there. Other
    /// values stay as they are.
    pub open spec fn with(self, key: Seq<char>, value: JsonView) -> JsonView {
        match self {
            JsonView::Object(m) => JsonView::Object(m.insert(key, value)),
            _ => self,
        }
    }

    /// The object without `key`. Other values stay as they are.
    pub open spec fn without(self, key: Seq<char>) -> JsonView {
        match self {
            JsonView::Object(m) => JsonView::Object(m.remove(key)),
            _ => self,
        }
    }

    /// The object with `value` under `key` where nothing was there before.
    pub open spec fn with_default(self, key: Seq<char>, value: JsonView) -> JsonView {
        if self.get(key) is Some {
            self
        } else {
            self.with(key, value)
        }
    }

    /// The string value of a text, or null where there is none.
    pub open spec fn opt_str(s: Option<Seq<char>>) -> JsonView {
        match s {
            Some(t) => JsonView::Str(t),
            None => JsonView::Null,
        }
    }

    /// The object without members.
    pub open spec fn empty_object() -> JsonView {
        JsonView::Object(Map::empty())
    }
}

impl Json {
    /// A string value.
    pub fn text(s: &str) -> (r: Json)
        ensures
            r@ == JsonView::Str(s@),
    {
        Json::Str(s.to_owned())
    }

    /// A string value, or null where there is no text.
    pub fn text_or_null(s: Option<&str>) -> (r: Json)
        ensures
            r@ == JsonView::opt_str(text::opt_str(s)),
    {
        match s {
            Some(t) => Json::text(t),
            None => Json::Null,
        }
    }

    /// An object without members.
    pub fn object() -> (r: Json)
        ensures
            r@ == JsonView::empty_object(),
            r is Object,
    {
        let m: StringMap<Json> = StringMap::new();
        proof {
            lemma_object_view(m);
            assert(object_view(m) =~= Map::empty());
        }
        Json::Object(m)
    }

    /// The member of an object under `key`.
    pub fn get(&self, key: &str) -> (r: Option<&Json>)
        ensures
            opt_json(r) == self@.get(key@),
    {
        match self {
            Json::Object(m) => {
                proof {
                    lemma_object_view(*m);
                }
                m.get(key)
            },
            _ => None,
        }
    }

    /// The text of a string value.
    pub fn as_str(&self) -> (r: Option<&str>)
        ensures
            text::opt_str(r) == self@.text(),
    {
        match self {
            Json::Str(s) => Some(s.as_str()),
            _ => None,
        }
    }

    /// The text of the string under `key`.
    pub fn get_text(&self, key: &str) -> (r: Option<String>)
        ensures
            text::opt_text(r) == self@.get_text(key@),
    {
        match self.get(key) {
            Some(v) => match v.as_str() {
                Some(s) => Some(s.to_owned()),
                None => None,
            },
            None => None,
        }
    }

    /// The member under `inner` of the member under `outer`.
    pub fn get2(&self, outer: &str, inner: &str) -> (r: Option<&Json>)
        ensures
            opt_json(r) == self@.get2(outer@, inner@),
    {
        match self.get(outer) {
            Some(v) => v.get(inner),
            None => None,
        }
    }

    /// The text of the string under `inner` of the member under `outer`.
    pub fn get2_text(&self, outer: &str, inner: &str) -> (r: Option<String>)
        ensures
            text::opt_text(r) == self@.get2_text(outer@, inner@),
    {
        match self.get(outer) {
            Some(v) => v.get_text(inner),
            None => None,
        }
    }

    /// The natural number under `key`.
    pub fn get_natural(&self, key: &str) -> (r: Option<u64>)
        ensures
            r == self@.get_natural(key@),
    {
        match self.get(key) {
            Some(Json::Natural(n)) => Some(*n),
            _ => None,
        }
    }

    /// The items of the list under `key`.
    pub fn get_list(&self, key: &str) -> (r: Option<&Vec<Json>>)
        ensures
            match r {
                Some(v) => self@.get_list(key@) == Some(array_view(v@)),
                None => self@.get_list(key@) is None,
            },
    {
        match self.get(key) {
            Some(Json::Array(v)) => Some(v),
            _ => None,
        }
    }

    /// Whether the value is an object.
    pub fn is_object(&self) -> (r: bool)
        ensures
            r == (self@ is Object),
            r == (self is Object),
    {
        match self {
            Json::Object(_) => true,
            _ => false,
        }
    }

    /// Whether the value is an object without members.
    pub fn is_empty_object(&self) -> (r: bool)
        ensures
            r == (self@ == JsonView::empty_object()),
    {
        match self {
            Json::Object(m) => {
                let n: usize = m.len();
                proof {
                    lemma_object_view(*m);
                    if n == 0 {
                        assert forall|k: Seq<char>| !object_view(*m).contains_key(k) by {
                            assert(m@.contains_key(k) == m.keys().contains(k));
                        }
                        assert(object_view(*m) =~= Map::empty());
                    } else {
                        let k = m.keys()[0];
                        assert(m.keys().contains(k));
                        assert(m@.contains_key(k));
                        assert(object_view(*m).dom().contains(k));
                        assert(!Map::<Seq<char>, JsonView>::empty().dom().contains(k));
                    }
                }
                n == 0
            },
            _ => false,
        }
    }

    /// Puts `value` under `key` of an object. Other values stay as they are.
    pub fn put(&mut self, key: &str, value: Json)
        ensures
            final(self)@ == old(self)@.with(key@, value@),
    {
        match self {
            Json::Object(m) => {
                let ghost before = *m;
                let ghost v = value;
                m.insert(key.to_owned(), value);
                proof {
                    lemma_object_view(before);
                    lemma_object_view(*m);
                    let want = object_view(before).insert(key@, v@);
                    assert forall|k: Seq<char>| object_view(*m).contains_key(k) implies want[k]
                        == object_view(*m)[k] by {
                        assert(m@.contains_key(k));
                        if k != key@ {
                            assert(before@.contains_key(k));
                        }
                    }
                    assert(object_view(*m) =~= want);
                }
            },
            _ => {},
        }
    }

    /// Takes `key` out of an object, and hands out its value.
    pub fn take(&mut self, key: &str) -> (r: Option<Json>)
        ensures
            final(self)@ == old(self)@.without(key@),
            match r {
                Some(v) => old(self)@.get(key@) == Some(v@),
                None => old(self)@.get(key@) is None,
            },
    {
        match self {
            Json::Object(m) => {
                let ghost before = *m;
                let taken = m.take(key);
                proof {
                    lemma_object_view(before);
                    lemma_object_view(*m);
                    let want = object_view(before).remove(key@);
                    assert forall|k: Seq<char>| object_view(*m).contains_key(k) implies want[k]
                        == object_view(*m)[k] by {
                        assert(m@.contains_key(k));
                        assert(before@.contains_key(k));
                    }
                    assert(object_view(*m) =~= want);
                }
                taken
            },
            _ => None,
        }
    }

    /// Takes `key` out of an object. Other values stay as they are.
    pub fn take_out(&mut self, key: &str)
        ensures
            final(self)@ == old(self)@.without(key@),
    {
        let _ = self.take(key);
    }

    /// Puts `value` under `key` of an object unless something is there already.
    pub fn put_default(&mut self, key: &str, value: Json)
        ensures
            final(self)@ == old(self)@.with_default(key@, value@),
    {
        if self.get(key).is_none() {
            self.put(key, value);
        }
    }

    /// A copy of the value.
    pub fn copy(&self) -> (r: Json)
        ensures
            r@ == self@,
        decreases self,
    {
        match self {
            Json::Null => Json::Null,
            Json::Bool(b) => Json::Bool(*b),
            Json::Natural(n) => Json::Natural(*n),
            Json::Number(n) => {
                proof {
                    use_type_invariant(n);
                }
                Json::Number(OtherNumber { number: n.number.clone() })
            },
            Json::Str(s) => Json::Str(s.clone()),
            Json::Array(v) => {
                let mut out: Vec<Json> = Vec::new();
                let mut i: usize = 0;
                while i < v.len()
                    invariant
                        i <= v@.len(),
                        self matches Json::Array(w) && w == v,
                        array_view(out@) =~= array_view(v@).take(i as int),
                    decreases v@.len() - i,
                {
                    proof {
                        assert(decreases_to!(self => v));
                        assert(decreases_to!(v => v@));
                        assert(decreases_to!(v@ => v@[i as int]));
                    }
                    let ghost before = out@;
                    let c = v[i].copy();
                    out.push(c);
                    proof {
                        lemma_array_view(before);
                        lemma_array_view(out@);
                        lemma_array_view(v@);
                        assert forall|j: int| 0 <= j < i + 1 implies #[trigger] array_view(out@)[j]
                            == array_view(v@)[j] by {
                            if j < i {
                                assert(array_view(before)[j] == array_view(v@).take(i as int)[j]);
                            }
                        }
                        assert(array_view(out@) =~= array_view(v@).take(i + 1));
                    }
                    i += 1;
                }
                proof {
                    lemma_array_view(v@);
                    assert(array_view(v@).take(v@.len() as int) =~= array_view(v@));
                }
                Json::Array(out)
            },
            Json::Object(m) => {
                m.sorted();
                let mut out: Vec<(String, Json)> = Vec::new();
                let mut i: usize = 0;
                assert(m.entries@.take(0) =~= Seq::<(String, Json)>::empty());
                while i < m.entries.len()
                    invariant
                        i <= m.entries@.len(),
                        self matches Json::Object(w) && w == m,
                        string_map::entries_keys(out@) =~= string_map::entries_keys(m.entries@).take(
                            i as int,
                        ),
                        entries_view(out@) == entries_view(m.entries@.take(i as int)),
                    decreases m.entries@.len() - i,
                {
                    proof {
                        assert(decreases_to!(self => m));
                        assert(decreases_to!(m => m.entries));
                        assert(decreases_to!(m.entries => m.entries@));
                        assert(decreases_to!(m.entries@ => m.entries@[i as int]));
                        assert(decreases_to!(m.entries@[i as int] => m.entries@[i as int].1));
                    }
                    let ghost before = out@;
                    let e = (m.entries[i].0.clone(), m.entries[i].1.copy());
                    out.push(e);
                    proof {
                        let ks = string_map::entries_keys(m.entries@);
                        assert(string_map::entries_keys(out@)
                            =~= string_map::entries_keys(before).push(e.0@));
                        assert(ks.take(i + 1) =~= ks.take(i as int).push(ks[i as int]));
                        assert(out@.drop_last() =~= before);
                        assert(m.entries@.take(i + 1).drop_last() =~= m.entries@.take(i as int));
                    }
                    i += 1;
                }
                proof {
                    assert(m.entries@.take(m.entries@.len() as int) =~= m.entries@);
                    assert(string_map::entries_keys(out@) =~= string_map::entries_keys(m.entries@));
                }
                let out = StringMap::from_entries(out);
                Json::Object(out)
            },
        }
    }
}

/// A copy of a list of values.
pub fn copy_list(v: &Vec<Json>) -> (r: Vec<Json>)
    ensures
        array_view(r@) == array_view(v@),
{
    let mut out: Vec<Json> = Vec::new();
    let mut i: usize = 0;
    while i < v.len()
        invariant
            i <= v@.len(),
            out@.len() == i,
            forall|k: int| 0 <= k < i ==> (#[trigger] out@[k])@ == v@[k]@,
        decreases v@.len() - i,
    {
        out.push(v[i].copy());
        i += 1;
    }
    proof {
        lemma_array_view(out@);
        lemma_array_view(v@);
        assert(array_view(out@) =~= array_view(v@));
    }
    out
}

} // verus!
