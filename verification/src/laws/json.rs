//! Values: what is put into an object is found in it, and nothing else is touched.

use crate::json::JsonView;
use vstd::prelude::*;

verus! {

/// An object is what its members are.
pub proof fn members_make_the_object(a: JsonView, b: JsonView)
    requires
        a is Object,
        b is Object,
        forall|key: Seq<char>| #[trigger] a.get(key) == b.get(key),
    ensures
        a == b,
{
    match (a, b) {
        (JsonView::Object(m), JsonView::Object(n)) => {
            assert forall|k: Seq<char>| m.dom().contains(k) <==> #[trigger] n.dom().contains(k) by {
                assert(a.get(k) == b.get(k));
                assert(m.contains_key(k) == n.contains_key(k));
            }
            assert(m.dom() =~= n.dom());
            assert forall|k: Seq<char>| m.dom().contains(k) implies #[trigger] m[k] == n[k] by {
                assert(a.get(k) == b.get(k));
            }
            assert(m =~= n);
        },
        _ => {},
    }
}

/// What is put into an object stands under its name; all else is as it was.
pub proof fn putting_changes_one_member(
    j: JsonView,
    name: Seq<char>,
    value: JsonView,
    key: Seq<char>,
)
    requires
        j is Object,
    ensures
        j.with(name, value) is Object,
        j.with(name, value).get(name) == Some(value),
        key != name ==> j.with(name, value).get(key) == j.get(key),
{
}

/// What is taken out of an object is gone; all else is as it was.
pub proof fn taking_changes_one_member(j: JsonView, name: Seq<char>, key: Seq<char>)
    requires
        j is Object,
    ensures
        j.without(name) is Object,
        j.without(name).get(name) is None,
        key != name ==> j.without(name).get(key) == j.get(key),
{
}

/// A default takes effect only where nothing was.
pub proof fn default_fills_a_gap(
    j: JsonView,
    name: Seq<char>,
    value: JsonView,
    key: Seq<char>,
)
    requires
        j is Object,
    ensures
        j.with_default(name, value) is Object,
        j.with_default(name, value).get(name) == Some(
            match j.get(name) {
                Some(v) => v,
                None => value,
            },
        ),
        key != name ==> j.with_default(name, value).get(key) == j.get(key),
{
}

/// A value that is no object has no members, and none are put into it.
pub proof fn others_have_no_members(j: JsonView, name: Seq<char>, value: JsonView)
    requires
        !(j is Object),
    ensures
        j.get(name) is None,
        j.with(name, value) == j,
        j.without(name) == j,
        j.with_default(name, value) == j,
{
}

/// What is read of a member, by its kind.
pub proof fn members_are_read_by_kind(j: JsonView, outer: Seq<char>, inner: Seq<char>)
    ensures
        j.get_text(outer) == match j.get(outer) {
            Some(JsonView::Str(s)) => Some(s),
            _ => None,
        },
        j.get_natural(outer) == match j.get(outer) {
            Some(JsonView::Natural(n)) => Some(n),
            _ => None,
        },
        j.get_list(outer) == match j.get(outer) {
            Some(JsonView::Array(items)) => Some(items),
            _ => None,
        },
        forall|v: JsonView|
            #![trigger v.get(inner)]
            j.get(outer) == Some(v) ==> j.get2(outer, inner) == v.get(inner) && j.get2_text(
                outer,
                inner,
            ) == v.get_text(inner),
        j.get(outer) is None ==> j.get2(outer, inner) is None && j.get2_text(outer, inner) is None,
{
}

} // verus!
