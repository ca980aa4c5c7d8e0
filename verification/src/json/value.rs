//! JSON values and their model.

use crate::json::key::{is_less, key_lt, key_order, lemma_key_lt_irreflexive, KeyOrder};
use crate::json::model::{
    has_key, keys, lemma_filter_next, lemma_filter_none, lemma_lookup_first, lemma_replaced_at,
    lemma_slotted_at, lookup, named, only, other_than, put, sorted, without, JsonView, Members,
};
use vstd::prelude::*;

verus! {

/// A JSON value.
#[derive(Debug, PartialEq)]
pub enum Json {
    Null,
    Bool(bool),
    Number(serde_json::Number),
    String(String),
    Array(Vec<Json>),
    Object(JsonMap),
}

/// The members of an object, each key once, in the order of the keys. `serde_json::Map` has the same
/// order, but holds the values of `serde_json` alone.
#[derive(Debug, PartialEq)]
pub struct JsonMap {
    entries: Vec<(String, Json)>,
}

impl JsonMap {
    /// The members as they are stored.
    pub closed spec fn entries(self) -> Seq<(String, Json)> {
        self.entries@
    }
}

/// A member's value is smaller than the map that holds it.
pub proof fn lemma_member_is_smaller(map: JsonMap, i: int)
    requires
        0 <= i < map.entries().len(),
    ensures
        decreases_to!(map => map.entries()[i].1),
{
    assert(decreases_to!(map => map.entries));
    assert(decreases_to!(map.entries => map.entries@));
    assert(decreases_to!(map.entries@ => map.entries@[i]));
    assert(decreases_to!(map.entries@[i] => map.entries@[i].1));
}

/// What `value` stands for.
pub open spec fn json_view(value: Json) -> JsonView
    decreases value,
{
    match value {
        Json::Null => JsonView::Null,
        Json::Bool(b) => JsonView::Bool(b),
        Json::Number(n) => JsonView::Number(n),
        Json::String(s) => JsonView::String(s@),
        Json::Array(items) => JsonView::Array(
            Seq::new(
                items@.len(),
                |i: int|
                    if 0 <= i < items@.len() {
                        json_view(items@[i])
                    } else {
                        JsonView::Null
                    },
            ),
        ),
        Json::Object(map) => JsonView::Object(
            Seq::new(
                map.entries().len(),
                |i: int|
                    if 0 <= i < map.entries().len() {
                        proof {
                            lemma_member_is_smaller(map, i);
                        }
                        (map.entries()[i].0@, json_view(map.entries()[i].1))
                    } else {
                        (Seq::empty(), JsonView::Null)
                    },
            ),
        ),
    }
}

impl View for Json {
    type V = JsonView;

    open spec fn view(&self) -> JsonView {
        json_view(*self)
    }
}

impl View for JsonMap {
    type V = Seq<(Seq<char>, JsonView)>;

    open spec fn view(&self) -> Members {
        member_views(self.entries())
    }
}

/// What a list of values stands for.
pub open spec fn json_views(values: Seq<Json>) -> Seq<JsonView> {
    Seq::new(values.len(), |i: int| values[i]@)
}

/// What a list of members stands for.
pub open spec fn member_views(members: Seq<(String, Json)>) -> Members {
    Seq::new(members.len(), |i: int| (members[i].0@, json_view(members[i].1)))
}

/// An object stands for its members.
pub broadcast proof fn lemma_object_view(map: JsonMap)
    ensures
        #[trigger] json_view(Json::Object(map)) == JsonView::Object(map@),
{
    assert(json_view(Json::Object(map))->Object_0 =~= map@);
}

/// An array stands for its items.
pub broadcast proof fn lemma_array_view(items: Vec<Json>)
    ensures
        #[trigger] json_view(Json::Array(items)) == JsonView::Array(json_views(items@)),
{
    assert(json_view(Json::Array(items))->Array_0 =~= json_views(items@));
}

/// What composite values stand for.
pub broadcast group group_json_views {
    lemma_object_view,
    lemma_array_view,
}

impl JsonMap {
    /// An object without members.
    pub fn new() -> (map: JsonMap)
        ensures
            map@ == Members::empty(),
    {
        JsonMap { entries: Vec::new() }
    }

    /// The object of the members in `entries`, whose keys are in order, each of them once.
    pub fn from_sorted(entries: Vec<(String, Json)>) -> (map: JsonMap)
        requires
            sorted(member_views(entries@)),
        ensures
            map@ == member_views(entries@),
    {
        JsonMap { entries }
    }

    /// The members, in the order of their keys.
    pub fn into_entries(self) -> (entries: Vec<(String, Json)>)
        ensures
            member_views(entries@) == self@,
    {
        self.entries
    }

    /// The number of members.
    pub fn len(&self) -> (n: usize)
        ensures
            n == self@.len(),
    {
        self.entries.len()
    }

    /// The key of the member at place `i`.
    pub fn key_at(&self, i: usize) -> (key: &str)
        requires
            i < self@.len(),
        ensures
            key@ == self@[i as int].0,
    {
        self.entries[i].0.as_str()
    }

    /// The value of the member at place `i`.
    pub fn value_at(&self, i: usize) -> (value: &Json)
        requires
            i < self@.len(),
        ensures
            value@ == self@[i as int].1,
    {
        &self.entries[i].1
    }

    /// The value of the member at place `i`, for changing it.
    pub fn value_at_mut(&mut self, i: usize) -> (value: &mut Json)
        requires
            i < old(self)@.len(),
        ensures
            value@ == old(self)@[i as int].1,
            final(self)@ == old(self)@.update(i as int, (old(self)@[i as int].0, final(value)@)),
    {
        &mut self.entries[i].1
    }

    /// The place of `key`, or the number of members where it has none.
    fn find(&self, key: &str) -> (i: usize)
        ensures
            i <= self@.len(),
            forall|j: int| 0 <= j < i ==> (#[trigger] self@[j]).0 != key@,
            i < self@.len() ==> self@[i as int].0 == key@,
            lookup(self@, key@) == if i < self@.len() {
                Some(self@[i as int].1)
            } else {
                None::<JsonView>
            },
    {
        let mut i: usize = 0;
        while i < self.entries.len()
            invariant
                i <= self@.len(),
                self@.len() == self.entries@.len(),
                forall|j: int| 0 <= j < i ==> (#[trigger] self@[j]).0 != key@,
            decreases self@.len() - i,
        {
            if let KeyOrder::Equal = key_order(self.key_at(i), key) {
                proof {
                    lemma_lookup_first(self@, key@, i as int);
                }
                return i;
            }
            proof {
                lemma_key_lt_irreflexive(key@);
            }
            i = i + 1;
        }
        proof {
            lemma_lookup_first(self@, key@, i as int);
        }
        i
    }

    /// The value under `key`.
    pub fn get(&self, key: &str) -> (value: Option<&Json>)
        ensures
            match value {
                Some(v) => lookup(self@, key@) == Some(v@),
                None => lookup(self@, key@) is None,
            },
    {
        let i = self.find(key);
        if i < self.entries.len() {
            Some(self.value_at(i))
        } else {
            None
        }
    }

    /// Whether there is a value under `key`.
    pub fn contains_key(&self, key: &str) -> (found: bool)
        ensures
            found == has_key(self@, key@),
    {
        self.find(key) < self.entries.len()
    }

    /// The value under `key`, for changing it.
    pub fn get_mut(&mut self, key: &str) -> (value: Option<&mut Json>)
        ensures
            match value {
                Some(v) => {
                    &&& lookup(old(self)@, key@) == Some(v@)
                    &&& final(self)@ == put(old(self)@, key@, final(v)@)
                },
                None => lookup(old(self)@, key@) is None && final(self)@ == old(self)@,
            },
    {
        let i = self.find(key);
        if i < self.entries.len() {
            proof {
                let members = self@;
                assert forall|new_value: JsonView| #[trigger]
                    put(members, key@, new_value) == members.update(
                        i as int,
                        (key@, new_value),
                    ) by {
                    lemma_replaced_at(members, key@, new_value, i as int);
                }
            }
            Some(self.value_at_mut(i))
        } else {
            None
        }
    }

    /// Puts `value` under `key`, in place of what stood there.
    pub fn insert(&mut self, key: String, value: Json)
        ensures
            final(self)@ == put(old(self)@, key@, value@),
    {
        let ghost before = self@;
        let found = self.find(key.as_str());
        if found < self.entries.len() {
            proof {
                lemma_replaced_at(before, key@, value@, found as int);
            }
            self.entries[found].1 = value;
            assert(self@ =~= before.update(found as int, (key@, value@)));
            return;
        }
        let mut i: usize = 0;
        while i < self.entries.len() && is_less(self.key_at(i), key.as_str())
            invariant
                self@ == before,
                i <= before.len(),
                before.len() == self.entries@.len(),
                forall|j: int| 0 <= j < before.len() ==> (#[trigger] before[j]).0 != key@,
                forall|j: int| 0 <= j < i ==> !key_lt(key@, (#[trigger] before[j]).0),
            decreases before.len() - i,
        {
            i = i + 1;
        }
        proof {
            lemma_slotted_at(before, key@, value@, i as int);
        }
        self.entries.insert(i, (key, value));
        assert(self@ =~= before.insert(i as int, (key@, value@)));
    }

    /// Takes out what stands under `key`.
    pub fn remove(&mut self, key: &str) -> (removed: Option<Json>)
        ensures
            final(self)@ == without(old(self)@, key@),
            match removed {
                Some(v) => lookup(old(self)@, key@) == Some(v@),
                None => lookup(old(self)@, key@) is None,
            },
    {
        let ghost before = self@;
        let ghost keep = other_than(key@);
        let ghost mut seen: int = 0;
        let mut removed: Option<Json> = None;
        let mut i: usize = 0;
        proof {
            lemma_filter_none(before, keep);
            assert(self@ =~= before.take(0).filter(keep) + before.skip(0));
        }
        while i < self.entries.len()
            invariant
                0 <= seen <= before.len(),
                keep == other_than(key@),
                self@ == before.take(seen).filter(keep) + before.skip(seen),
                self@.len() == self.entries@.len(),
                i == before.take(seen).filter(keep).len(),
                match removed {
                    Some(v) => lookup(before, key@) == Some(v@),
                    None => forall|j: int| 0 <= j < seen ==> (#[trigger] before[j]).0 != key@,
                },
            decreases before.len() - seen,
        {
            assert(self@[i as int] == before[seen]);
            proof {
                lemma_filter_next(before, keep, seen);
                lemma_key_lt_irreflexive(key@);
            }
            if let KeyOrder::Equal = key_order(self.key_at(i), key) {
                let ghost held = self@;
                let (_, value) = self.entries.remove(i);
                assert(self@ =~= held.remove(i as int));
                if removed.is_none() {
                    proof {
                        lemma_lookup_first(before, key@, seen);
                    }
                    removed = Some(value);
                }
            } else {
                i = i + 1;
            }
            proof {
                seen = seen + 1;
                assert(self@ =~= before.take(seen).filter(keep) + before.skip(seen));
            }
        }
        proof {
            assert(seen == before.len());
            assert(before.take(seen) =~= before);
            assert(self@ =~= before.filter(keep));
            if removed.is_none() {
                lemma_lookup_first(before, key@, seen);
            }
        }
        removed
    }

    /// Takes out everything but what stands under `key`.
    pub fn keep_only(&mut self, key: &str)
        ensures
            final(self)@ == only(old(self)@, key@),
    {
        let ghost before = self@;
        let ghost keep = named(key@);
        let ghost mut seen: int = 0;
        let mut i: usize = 0;
        proof {
            lemma_filter_none(before, keep);
            assert(self@ =~= before.take(0).filter(keep) + before.skip(0));
        }
        while i < self.entries.len()
            invariant
                0 <= seen <= before.len(),
                keep == named(key@),
                self@ == before.take(seen).filter(keep) + before.skip(seen),
                self@.len() == self.entries@.len(),
                i == before.take(seen).filter(keep).len(),
            decreases before.len() - seen,
        {
            assert(self@[i as int] == before[seen]);
            proof {
                lemma_filter_next(before, keep, seen);
                lemma_key_lt_irreflexive(key@);
            }
            if let KeyOrder::Equal = key_order(self.key_at(i), key) {
                i = i + 1;
            } else {
                let ghost held = self@;
                let _ = self.entries.remove(i);
                assert(self@ =~= held.remove(i as int));
            }
            proof {
                seen = seen + 1;
                assert(self@ =~= before.take(seen).filter(keep) + before.skip(seen));
            }
        }
        proof {
            assert(before.take(seen) =~= before);
            assert(self@ =~= before.filter(keep));
        }
    }

    /// The keys, as JSON strings.
    pub fn keys(&self) -> (names: Vec<Json>)
        ensures
            Json::Array(names)@ == JsonView::Array(keys(self@)),
    {
        let mut names: Vec<Json> = Vec::new();
        let mut i: usize = 0;
        while i < self.entries.len()
            invariant
                i <= self@.len(),
                self@.len() == self.entries@.len(),
                names@.len() == i,
                forall|j: int|
                    0 <= j < i ==> (#[trigger] names@[j])@ == JsonView::String(self@[j].0),
            decreases self@.len() - i,
        {
            names.push(Json::String(self.key_at(i).to_owned()));
            i = i + 1;
        }
        assert(Json::Array(names)@->Array_0 =~= keys(self@));
        names
    }
}

} // verus!
