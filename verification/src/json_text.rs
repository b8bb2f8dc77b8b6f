//! JSON values from bytes and back, by way of `serde_json`.

use crate::json;
use crate::json::{natural_of, Json, JsonView, OtherNumber};
use crate::string_map;
use crate::string_map::StringMap;
use vstd::prelude::*;
use vstd::utf8::*;

verus! {

/// `serde_json::Value`: a JSON value. Its contents stay hidden.
#[verifier::external_type_specification]
#[verifier::external_body]
pub struct ExValue(serde_json::Value);

/// What a `serde_json::Value` holds.
pub uninterp spec fn value_json(v: serde_json::Value) -> JsonView;

/// What `serde_json::from_slice` makes of some bytes: a value, or the text of the
/// error.
pub uninterp spec fn parsed(bytes: Seq<u8>) -> Result<JsonView, Seq<char>>;

/// The text that `serde_json` writes for a value, without spaces.
pub uninterp spec fn json_text(j: JsonView) -> Seq<char>;

/// The text that `serde_json` writes for a value, indented.
pub uninterp spec fn json_pretty(j: JsonView) -> Seq<char>;

/// The outermost layer of a `serde_json::Value`.
pub enum JsonNode {
    Null,
    Bool(bool),
    Number(serde_json::Number),
    Str(String),
    Array(Vec<serde_json::Value>),
    Object(Vec<(String, serde_json::Value)>),
}

/// What a number says.
pub open spec fn number_json(n: serde_json::Number) -> JsonView {
    match json::number_natural(n) {
        Some(u) => JsonView::Natural(u),
        None => JsonView::Number(n),
    }
}

/// The members that a list of entries makes up; of two under one key the later
/// counts.
pub open spec fn members_json(entries: Seq<(String, serde_json::Value)>) -> Map<
    Seq<char>,
    JsonView,
>
    decreases entries.len(),
{
    if entries.len() == 0 {
        Map::empty()
    } else {
        members_json(entries.drop_last()).insert(entries.last().0@, value_json(entries.last().1))
    }
}

/// What a value says, by its outermost layer.
pub open spec fn node_json(node: JsonNode) -> JsonView {
    match node {
        JsonNode::Null => JsonView::Null,
        JsonNode::Bool(b) => JsonView::Bool(b),
        JsonNode::Number(n) => number_json(n),
        JsonNode::Str(s) => JsonView::Str(s@),
        JsonNode::Array(v) => JsonView::Array(Seq::new(v@.len(), |i: int| value_json(v@[i]))),
        JsonNode::Object(e) => JsonView::Object(members_json(e@)),
    }
}

/// `serde_json::Value` as one of its six variants. The members of an object come
/// in dictionary order of their keys, each key once.
#[verifier::external_body]
fn into_node(v: serde_json::Value) -> (r: JsonNode)
    ensures
        node_json(r) == value_json(v),
        r matches JsonNode::Object(e) ==> string_map::ascending(string_map::entries_keys(e@)),
{
    match v {
        serde_json::Value::Null => JsonNode::Null,
        serde_json::Value::Bool(b) => JsonNode::Bool(b),
        serde_json::Value::Number(n) => JsonNode::Number(n),
        serde_json::Value::String(s) => JsonNode::Str(s),
        serde_json::Value::Array(items) => JsonNode::Array(items),
        serde_json::Value::Object(members) => JsonNode::Object(members.into_iter().collect()),
    }
}

/// `serde_json::Value` from one of its six variants. Of two members under one key
/// the later is kept.
#[verifier::external_body]
fn from_node(node: JsonNode) -> (r: serde_json::Value)
    ensures
        value_json(r) == node_json(node),
{
    match node {
        JsonNode::Null => serde_json::Value::Null,
        JsonNode::Bool(b) => serde_json::Value::Bool(b),
        JsonNode::Number(n) => serde_json::Value::Number(n),
        JsonNode::Str(s) => serde_json::Value::String(s),
        JsonNode::Array(items) => serde_json::Value::Array(items),
        JsonNode::Object(members) => serde_json::Value::Object(members.into_iter().collect()),
    }
}

/// `serde_json::Number::from` of a `u64`: the number that `as_u64` gives back.
#[verifier::external_body]
fn number_of(u: u64) -> (r: serde_json::Number)
    ensures
        json::number_natural(r) == Some(u),
{
    serde_json::Number::from(u)
}

/// `serde_json::from_slice` of a value: the parsed value, or what the error says
/// of itself.
#[verifier::external_body]
fn value_from_slice(bytes: &[u8]) -> (r: Result<serde_json::Value, String>)
    ensures
        match r {
            Ok(v) => parsed(bytes@) == Ok::<JsonView, Seq<char>>(value_json(v)),
            Err(e) => parsed(bytes@) == Err::<JsonView, Seq<char>>(e@),
        },
{
    serde_json::from_slice(bytes).map_err(|e: serde_json::Error| e.to_string())
}

/// `serde_json::Value::to_string`: the text of the value.
#[verifier::external_body]
fn value_to_string(v: &serde_json::Value) -> (r: String)
    ensures
        r@ == json_text(value_json(*v)),
{
    v.to_string()
}

/// `serde_json::to_string_pretty` of a value, which always succeeds: the indented
/// text of the value.
#[verifier::external_body]
fn value_to_pretty(v: &serde_json::Value) -> (r: String)
    ensures
        r@ == json_pretty(value_json(*v)),
{
    serde_json::to_string_pretty(v).unwrap_or_default()
}

/// What a parse gave.
pub open spec fn parse_view(r: Result<Json, String>) -> Result<JsonView, Seq<char>> {
    match r {
        Ok(j) => Ok(j@),
        Err(e) => Err(e@),
    }
}

/// The value of a `serde_json::Value`.
pub(crate) fn from_value(v: serde_json::Value) -> (r: Json)
    ensures
        r@ == value_json(v),
    decreases value_json(v),
{
    let node = into_node(v);
    match node {
        JsonNode::Null => Json::Null,
        JsonNode::Bool(b) => Json::Bool(b),
        JsonNode::Number(n) => match natural_of(&n) {
            Some(u) => Json::Natural(u),
            None => match OtherNumber::new(n) {
                Some(other) => Json::Number(other),
                None => Json::Null,
            },
        },
        JsonNode::Str(s) => Json::Str(s),
        JsonNode::Array(items) => {
            let ghost all = items@;
            let mut out: Vec<Json> = Vec::new();
            for x in it: items
                invariant
                    it.seq() == all,
                    value_json(v) == JsonView::Array(
                        Seq::new(all.len(), |i: int| value_json(all[i])),
                    ),
                    out@.len() == it.index(),
                    forall|i: int|
                        0 <= i < out@.len() ==> (#[trigger] out@[i])@ == value_json(all[i]),
            {
                proof {
                    let s = value_json(v)->Array_0;
                    assert(decreases_to!(value_json(v) => value_json(v)->Array_0));
                    assert(s[it.index() as int] == value_json(x));
                    assert(decreases_to!(s => s[it.index() as int]));
                }
                out.push(from_value(x));
            }
            proof {
                json::lemma_array_view(out@);
                assert(json::array_view(out@) =~= Seq::new(all.len(), |i: int| value_json(all[i])));
            }
            Json::Array(out)
        },
        JsonNode::Object(entries) => {
            let ghost all = entries@;
            let mut out: Vec<(String, Json)> = Vec::new();
            for x in it: entries
                invariant
                    it.seq() == all,
                    value_json(v) == JsonView::Object(members_json(all)),
                    string_map::ascending(string_map::entries_keys(all)),
                    out@.len() == it.index(),
                    forall|i: int|
                        0 <= i < out@.len() ==> (#[trigger] out@[i]).0@ == all[i].0@ && out@[i].1@
                            == value_json(all[i].1),
            {
                proof {
                    lemma_members_json(all);
                    let m = members_json(all);
                    let i = it.index() as int;
                    assert(all[i] == x);
                    assert(m.contains_key(x.0@) && m[x.0@] == value_json(x.1));
                    assert(decreases_to!(value_json(v) => value_json(v)->Object_0));
                    assert(decreases_to!(m => m[x.0@]));
                }
                out.push((x.0, from_value(x.1)));
            }
            proof {
                assert(string_map::entries_keys(out@) =~= string_map::entries_keys(all));
                lemma_same_members(out@, all);
            }
            let m = StringMap::from_entries(out);
            proof {
                json::lemma_object_entries(m);
            }
            Json::Object(m)
        },
    }
}

proof fn lemma_members_json(entries: Seq<(String, serde_json::Value)>)
    requires
        string_map::ascending(string_map::entries_keys(entries)),
    ensures
        members_json(entries).dom().finite(),
        forall|i: int|
            0 <= i < entries.len() ==> members_json(entries).contains_key((#[trigger] entries[i]).0@)
                && members_json(entries)[entries[i].0@] == value_json(entries[i].1),
    decreases entries.len(),
{
    let keys = string_map::entries_keys(entries);
    if entries.len() > 0 {
        let front = entries.drop_last();
        assert(string_map::entries_keys(front) =~= keys.drop_last());
        lemma_members_json(front);
        assert forall|i: int| 0 <= i < entries.len() implies members_json(entries).contains_key(
            (#[trigger] entries[i]).0@,
        ) && members_json(entries)[entries[i].0@] == value_json(entries[i].1) by {
            if i < entries.len() - 1 {
                assert(front[i] == entries[i]);
                assert(crate::text::precedes(keys[i], keys[entries.len() - 1]));
                crate::text::lemma_precedes_irreflexive(keys[i]);
            }
        }
    }
}

proof fn lemma_same_members(a: Seq<(String, Json)>, b: Seq<(String, serde_json::Value)>)
    requires
        a.len() == b.len(),
        forall|i: int|
            0 <= i < a.len() ==> (#[trigger] a[i]).0@ == b[i].0@ && a[i].1@ == value_json(b[i].1),
    ensures
        json::entries_view(a) == members_json(b),
    decreases a.len(),
{
    if a.len() > 0 {
        assert forall|i: int| 0 <= i < a.drop_last().len() implies (#[trigger] a.drop_last()[i]).0@
            == b.drop_last()[i].0@ && a.drop_last()[i].1@ == value_json(b.drop_last()[i].1) by {
            assert(a[i].0@ == b[i].0@);
        }
        lemma_same_members(a.drop_last(), b.drop_last());
        assert(a[a.len() - 1].0@ == b[a.len() - 1].0@);
    }
}

/// The `serde_json::Value` of a value.
pub(crate) fn to_value(j: &Json) -> (r: serde_json::Value)
    ensures
        value_json(r) == j@,
    decreases j,
{
    match j {
        Json::Null => from_node(JsonNode::Null),
        Json::Bool(b) => from_node(JsonNode::Bool(*b)),
        Json::Natural(u) => from_node(JsonNode::Number(number_of(*u))),
        Json::Number(n) => from_node(JsonNode::Number(n.get())),
        Json::Str(s) => from_node(JsonNode::Str(s.clone())),
        Json::Array(v) => {
            let mut out: Vec<serde_json::Value> = Vec::new();
            let mut i: usize = 0;
            while i < v.len()
                invariant
                    i <= v@.len(),
                    out@.len() == i,
                    j matches Json::Array(w) && w == v,
                    forall|k: int| 0 <= k < i ==> value_json(#[trigger] out@[k]) == v@[k]@,
                decreases v@.len() - i,
            {
                proof {
                    assert(decreases_to!(j => v));
                    assert(decreases_to!(v => v@));
                    assert(decreases_to!(v@ => v@[i as int]));
                }
                out.push(to_value(&v[i]));
                i += 1;
            }
            proof {
                json::lemma_array_view(v@);
                assert(json::array_view(v@) =~= Seq::new(out@.len(), |k: int| value_json(out@[k])));
            }
            from_node(JsonNode::Array(out))
        },
        Json::Object(m) => {
            let mut out: Vec<(String, serde_json::Value)> = Vec::new();
            let mut i: usize = 0;
            while i < m.entries.len()
                invariant
                    i <= m.entries@.len(),
                    out@.len() == i,
                    j matches Json::Object(w) && w == m,
                    forall|k: int|
                        0 <= k < i ==> m.entries@[k].0@ == (#[trigger] out@[k]).0@
                            && m.entries@[k].1@ == value_json(out@[k].1),
                decreases m.entries@.len() - i,
            {
                proof {
                    assert(decreases_to!(j => m));
                    assert(decreases_to!(m => m.entries));
                    assert(decreases_to!(m.entries => m.entries@));
                    assert(decreases_to!(m.entries@ => m.entries@[i as int]));
                    assert(decreases_to!(m.entries@[i as int] => m.entries@[i as int].1));
                }
                out.push((m.entries[i].0.clone(), to_value(&m.entries[i].1)));
                i += 1;
            }
            proof {
                lemma_same_members(m.entries@, out@);
                json::lemma_object_entries(*m);
            }
            from_node(JsonNode::Object(out))
        },
    }
}

/// Parses the bytes of a JSON value.
pub fn parse_json(bytes: &[u8]) -> (r: Result<Json, String>)
    ensures
        parse_view(r) == parsed(bytes@),
{
    match value_from_slice(bytes) {
        Ok(v) => Ok(from_value(v)),
        Err(e) => Err(e),
    }
}

/// The text of a JSON value, without spaces.
pub fn write_json(j: &Json) -> (r: String)
    ensures
        r@ == json_text(j@),
{
    value_to_string(&to_value(j))
}

/// The text of a JSON value, indented.
pub fn write_pretty(j: &Json) -> (r: String)
    ensures
        r@ == json_pretty(j@),
{
    value_to_pretty(&to_value(j))
}

/// The bytes of the text of a JSON value.
pub fn write_bytes(j: &Json) -> (r: Vec<u8>)
    ensures
        r@ == encode_utf8(json_text(j@)),
{
    let s = write_json(j);
    s.as_str().as_bytes_vec()
}

} // verus!
