//! What holds of objects and values.

use crate::json::model::{keys, lemma_no_such_key, lookup, JsonView, Members};
use crate::json::value::{Json, JsonMap};
use vstd::prelude::*;

verus! {

broadcast use crate::json::value::group_json_views;

/// Looking up a key gives the value of the first member that has it, and nothing only where no
/// member has it.
pub proof fn law_lookup_finds_the_first(members: Members, key: Seq<char>)
    ensures
        match lookup(members, key) {
            Some(value) => exists|i: int|
                0 <= i < members.len() && #[trigger] members[i] == (key, value) && forall|j: int|
                    0 <= j < i ==> (#[trigger] members[j]).0 != key,
            None => forall|i: int| 0 <= i < members.len() ==> (#[trigger] members[i]).0 != key,
        },
    decreases members.len(),
{
    if lookup(members, key) is None {
        lemma_no_such_key(members, key);
    } else if members[0].0 == key {
        assert(members[0] == (key, lookup(members, key)->0));
    } else {
        let rest = members.drop_first();
        law_lookup_finds_the_first(rest, key);
        let value = lookup(members, key)->0;
        let i = choose|i: int|
            0 <= i < rest.len() && #[trigger] rest[i] == (key, value) && forall|j: int|
                0 <= j < i ==> (#[trigger] rest[j]).0 != key;
        assert(members[i + 1] == (key, value));
        assert forall|j: int| 0 <= j < i + 1 implies (#[trigger] members[j]).0 != key by {
            if j > 0 {
                assert(rest[j - 1].0 != key);
            }
        }
    }
}

/// The keys of an object are the names of all its members, one for one.
pub proof fn law_keys_are_all_names(members: Members)
    ensures
        keys(members).len() == members.len(),
        forall|i: int|
            0 <= i < members.len() ==> #[trigger] keys(members)[i] == JsonView::String(
                members[i].0,
            ),
{
}

/// A value stands for what it holds: a list for its items, and an object for its members, each in
/// its place.
pub proof fn law_values_stand_for_what_they_hold(
    b: bool,
    n: serde_json::Number,
    s: String,
    items: Vec<Json>,
    map: JsonMap,
)
    ensures
        Json::Null@ == JsonView::Null,
        Json::Bool(b)@ == JsonView::Bool(b),
        Json::Number(n)@ == JsonView::Number(n),
        Json::String(s)@ == JsonView::String(s@),
        Json::Array(items)@ matches JsonView::Array(views) && views.len() == items@.len()
            && forall|i: int| 0 <= i < items@.len() ==> #[trigger] views[i] == items@[i]@,
        Json::Object(map)@ == JsonView::Object(map@),
        map@.len() == map.entries().len(),
        forall|i: int|
            0 <= i < map@.len() ==> #[trigger] map@[i] == (
                map.entries()[i].0@,
                map.entries()[i].1@,
            ),
{
}

} // verus!
