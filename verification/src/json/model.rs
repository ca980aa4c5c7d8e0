//! What a JSON value is, and what the operations on objects do.

use crate::json::key::key_lt;
use vstd::prelude::*;

verus! {

/// `serde_json::Number`, carried through unread.
#[verifier::external_type_specification]
#[verifier::external_body]
pub struct ExNumber(serde_json::Number);

/// A JSON value. An object is the list of its members in the order of their keys.
pub enum JsonView {
    Null,
    Bool(bool),
    Number(serde_json::Number),
    String(Seq<char>),
    Array(Seq<JsonView>),
    Object(Seq<(Seq<char>, JsonView)>),
}

/// The members of an object.
pub type Members = Seq<(Seq<char>, JsonView)>;

/// The value under `key`, if there is one.
pub open spec fn lookup(members: Members, key: Seq<char>) -> Option<JsonView>
    decreases members.len(),
{
    if members.len() == 0 {
        None
    } else if members[0].0 == key {
        Some(members[0].1)
    } else {
        lookup(members.drop_first(), key)
    }
}

/// There is a value under `key`.
pub open spec fn has_key(members: Members, key: Seq<char>) -> bool {
    lookup(members, key) is Some
}

/// `members` with `value` under `key`, in place of what stood there, or else in the place that the
/// order of the keys gives it.
pub open spec fn put(members: Members, key: Seq<char>, value: JsonView) -> Members {
    if has_key(members, key) {
        replaced(members, key, value)
    } else {
        slotted(members, key, value)
    }
}

/// `members` with `value` for what stands under `key`.
pub open spec fn replaced(members: Members, key: Seq<char>, value: JsonView) -> Members
    decreases members.len(),
{
    if members.len() == 0 {
        members
    } else if members[0].0 == key {
        seq![(key, value)] + members.drop_first()
    } else {
        seq![members[0]] + replaced(members.drop_first(), key, value)
    }
}

/// `members` with a new member before the first of a greater key.
pub open spec fn slotted(members: Members, key: Seq<char>, value: JsonView) -> Members
    decreases members.len(),
{
    if members.len() == 0 {
        seq![(key, value)]
    } else if key_lt(key, members[0].0) {
        seq![(key, value)] + members
    } else {
        seq![members[0]] + slotted(members.drop_first(), key, value)
    }
}

/// The members of other keys than `key`.
pub open spec fn other_than(key: Seq<char>) -> spec_fn((Seq<char>, JsonView)) -> bool {
    |member: (Seq<char>, JsonView)| member.0 != key
}

/// The members of the key `key`.
pub open spec fn named(key: Seq<char>) -> spec_fn((Seq<char>, JsonView)) -> bool {
    |member: (Seq<char>, JsonView)| member.0 == key
}

/// `members` with nothing under `key`.
pub open spec fn without(members: Members, key: Seq<char>) -> Members {
    members.filter(other_than(key))
}

/// Only what stands under `key`.
pub open spec fn only(members: Members, key: Seq<char>) -> Members {
    members.filter(named(key))
}

/// The keys, as JSON strings, in their order.
pub open spec fn keys(members: Members) -> Seq<JsonView> {
    members.map_values(|member: (Seq<char>, JsonView)| JsonView::String(member.0))
}

/// Each key stands before the next one, so no key occurs twice.
pub open spec fn sorted(members: Members) -> bool {
    forall|i: int, j: int|
        0 <= i < j < members.len() ==> key_lt(#[trigger] members[i].0, #[trigger] members[j].0)
}

/// Every object inside `value` has its keys in order and each of them once.
pub open spec fn well_formed(value: JsonView) -> bool
    decreases value,
{
    match value {
        JsonView::Array(items) => forall|i: int|
            0 <= i < items.len() ==> well_formed(#[trigger] items[i]),
        JsonView::Object(members) => {
            &&& sorted(members)
            &&& forall|i: int|
                0 <= i < members.len() ==> well_formed((#[trigger] members[i]).1)
        },
        _ => true,
    }
}

/// Nothing is left of an empty prefix.
pub proof fn lemma_filter_none<A>(s: Seq<A>, keep: spec_fn(A) -> bool)
    ensures
        s.take(0).filter(keep) == Seq::<A>::empty(),
{
    reveal(Seq::filter);
    assert(s.take(0).filter(keep) =~= Seq::<A>::empty());
}

/// What is left of a prefix grows by its next item where that one is kept.
pub proof fn lemma_filter_next<A>(s: Seq<A>, keep: spec_fn(A) -> bool, i: int)
    requires
        0 <= i < s.len(),
    ensures
        s.take(i + 1).filter(keep) == if keep(s[i]) {
            s.take(i).filter(keep).push(s[i])
        } else {
            s.take(i).filter(keep)
        },
{
    reveal(Seq::filter);
    assert(s.take(i + 1).drop_last() =~= s.take(i));
}

/// The first member with `key` is the one that `lookup` finds.
pub proof fn lemma_lookup_first(members: Members, key: Seq<char>, i: int)
    requires
        0 <= i <= members.len(),
        forall|j: int| 0 <= j < i ==> (#[trigger] members[j]).0 != key,
        i < members.len() ==> members[i].0 == key,
    ensures
        lookup(members, key) == if i < members.len() {
            Some(members[i].1)
        } else {
            None::<JsonView>
        },
    decreases members.len(),
{
    if i > 0 {
        let rest = members.drop_first();
        assert forall|j: int| 0 <= j < i - 1 implies (#[trigger] rest[j]).0 != key by {
            assert(members[j + 1].0 != key);
        }
        lemma_lookup_first(rest, key, i - 1);
    }
}

/// What is replaced is the first member with `key`.
pub proof fn lemma_replaced_at(members: Members, key: Seq<char>, value: JsonView, i: int)
    requires
        0 <= i < members.len(),
        forall|j: int| 0 <= j < i ==> (#[trigger] members[j]).0 != key,
        members[i].0 == key,
    ensures
        replaced(members, key, value) == members.update(i, (key, value)),
    decreases members.len(),
{
    if i == 0 {
        assert(seq![(key, value)] + members.drop_first() =~= members.update(i, (key, value)));
    } else {
        let rest = members.drop_first();
        assert forall|j: int| 0 <= j < i - 1 implies (#[trigger] rest[j]).0 != key by {
            assert(members[j + 1].0 != key);
        }
        lemma_replaced_at(rest, key, value, i - 1);
        assert(members[0].0 != key);
        assert(seq![members[0]] + rest.update(i - 1, (key, value)) =~= members.update(
            i,
            (key, value),
        ));
    }
}

/// Putting back what stands under a key changes nothing.
pub proof fn lemma_put_same(members: Members, key: Seq<char>)
    requires
        has_key(members, key),
    ensures
        put(members, key, lookup(members, key)->0) == members,
    decreases members.len(),
{
    if members[0].0 == key {
        assert(seq![(key, members[0].1)] + members.drop_first() =~= members);
    } else {
        lemma_put_same(members.drop_first(), key);
        assert(seq![members[0]] + members.drop_first() =~= members);
    }
}

/// Where nothing stands under a key, nothing is taken out.
pub proof fn lemma_without_absent(members: Members, key: Seq<char>)
    requires
        !has_key(members, key),
    ensures
        without(members, key) == members,
        forall|i: int| 0 <= i < members.len() ==> (#[trigger] members[i]).0 != key,
    decreases members.len(),
{
    lemma_no_such_key(members, key);
    lemma_filter_all(members, other_than(key));
}

/// `lookup` misses no member.
pub proof fn lemma_no_such_key(members: Members, key: Seq<char>)
    requires
        !has_key(members, key),
    ensures
        forall|i: int| 0 <= i < members.len() ==> (#[trigger] members[i]).0 != key,
    decreases members.len(),
{
    if members.len() > 0 {
        lemma_no_such_key(members.drop_first(), key);
        assert forall|i: int| 0 <= i < members.len() implies (#[trigger] members[i]).0 != key by {
            if i > 0 {
                assert(members.drop_first()[i - 1].0 != key);
            }
        }
    }
}

/// Where every item is kept, the list stays as it is.
pub proof fn lemma_filter_all<A>(s: Seq<A>, keep: spec_fn(A) -> bool)
    requires
        forall|i: int| 0 <= i < s.len() ==> keep(#[trigger] s[i]),
    ensures
        s.filter(keep) == s,
    decreases s.len(),
{
    reveal(Seq::filter);
    if s.len() > 0 {
        lemma_filter_all(s.drop_last(), keep);
        assert(s.drop_last().push(s.last()) =~= s);
    } else {
        assert(s.filter(keep) =~= s);
    }
}

/// A new member stands before the first one of a greater key.
pub proof fn lemma_slotted_at(members: Members, key: Seq<char>, value: JsonView, i: int)
    requires
        0 <= i <= members.len(),
        forall|j: int| 0 <= j < i ==> !key_lt(key, (#[trigger] members[j]).0),
        i < members.len() ==> key_lt(key, members[i].0),
    ensures
        slotted(members, key, value) == members.insert(i, (key, value)),
    decreases members.len(),
{
    if i == 0 {
        assert(slotted(members, key, value) =~= members.insert(i, (key, value)));
    } else {
        let rest = members.drop_first();
        assert forall|j: int| 0 <= j < i - 1 implies !key_lt(key, (#[trigger] rest[j]).0) by {
            assert(!key_lt(key, members[j + 1].0));
        }
        lemma_slotted_at(rest, key, value, i - 1);
        assert(!key_lt(key, members[0].0));
        assert(seq![members[0]] + rest.insert(i - 1, (key, value)) =~= members.insert(
            i,
            (key, value),
        ));
    }
}

} // verus!
