//! How the operations on members go together.

use crate::json::key::{
    key_lt, lemma_key_lt_irreflexive, lemma_key_lt_total, lemma_key_lt_transitive,
};
use crate::json::model::{
    has_key, lookup, other_than, put, replaced, slotted, sorted, well_formed, without, JsonView,
    Members,
};
use vstd::prelude::*;

verus! {

/// Every value among the members is well formed.
pub open spec fn values_well_formed(members: Members) -> bool {
    forall|i: int| 0 <= i < members.len() ==> well_formed((#[trigger] members[i]).1)
}

/// The key of each member is greater than `key`.
pub open spec fn all_above(members: Members, key: Seq<char>) -> bool {
    forall|i: int| 0 <= i < members.len() ==> key_lt(key, (#[trigger] members[i]).0)
}

/// What is found among the rest of the members.
pub proof fn lemma_sorted_tail(members: Members)
    requires
        sorted(members),
        members.len() > 0,
    ensures
        sorted(members.drop_first()),
        all_above(members.drop_first(), members[0].0),
{
    let rest = members.drop_first();
    assert forall|i: int, j: int| 0 <= i < j < rest.len() implies key_lt(
        #[trigger] rest[i].0,
        #[trigger] rest[j].0,
    ) by {
        assert(key_lt(members[i + 1].0, members[j + 1].0));
    }
    assert forall|i: int| 0 <= i < rest.len() implies key_lt(
        members[0].0,
        (#[trigger] rest[i]).0,
    ) by {
        assert(key_lt(members[0].0, members[i + 1].0));
    }
}

/// A smaller first member keeps the order.
pub proof fn lemma_sorted_cons(first: (Seq<char>, JsonView), rest: Members)
    requires
        sorted(rest),
        all_above(rest, first.0),
    ensures
        sorted(seq![first] + rest),
{
    let members = seq![first] + rest;
    assert forall|i: int, j: int| 0 <= i < j < members.len() implies key_lt(
        #[trigger] members[i].0,
        #[trigger] members[j].0,
    ) by {
        assert(members[j] == rest[j - 1]);
        if i > 0 {
            assert(members[i] == rest[i - 1]);
        }
    }
}

/// Nothing is found under a key that all keys are above.
pub proof fn lemma_lookup_below(members: Members, key: Seq<char>)
    requires
        all_above(members, key),
    ensures
        lookup(members, key) is None,
    decreases members.len(),
{
    if members.len() > 0 {
        lemma_key_lt_irreflexive(key);
        assert(key_lt(key, members[0].0));
        let rest = members.drop_first();
        assert forall|i: int| 0 <= i < rest.len() implies key_lt(key, (#[trigger] rest[i]).0) by {
            assert(key_lt(key, members[i + 1].0));
        }
        lemma_lookup_below(rest, key);
    }
}

/// What is found is the value of a member.
pub proof fn lemma_lookup_is_member(members: Members, key: Seq<char>) -> (i: int)
    requires
        has_key(members, key),
    ensures
        0 <= i < members.len(),
        members[i] == (key, lookup(members, key)->0),
    decreases members.len(),
{
    if members[0].0 == key {
        0
    } else {
        1 + lemma_lookup_is_member(members.drop_first(), key)
    }
}

/// Where keys are in order, each member is found under its key.
pub proof fn lemma_member_is_found(members: Members, i: int)
    requires
        sorted(members),
        0 <= i < members.len(),
    ensures
        lookup(members, members[i].0) == Some(members[i].1),
    decreases members.len(),
{
    if i > 0 {
        lemma_key_lt_irreflexive(members[i].0);
        assert(key_lt(members[0].0, members[i].0));
        lemma_sorted_tail(members);
        lemma_member_is_found(members.drop_first(), i - 1);
    }
}

/// Members in order are known by what is found under each key.
pub proof fn lemma_same_lookups(a: Members, b: Members)
    requires
        sorted(a),
        sorted(b),
        forall|key: Seq<char>| #[trigger] lookup(a, key) == lookup(b, key),
    ensures
        a == b,
    decreases a.len(),
{
    if a.len() == 0 {
        if b.len() > 0 {
            assert(lookup(a, b[0].0) == lookup(b, b[0].0));
        }
        assert(a =~= b);
    } else if b.len() == 0 {
        assert(lookup(a, a[0].0) == lookup(b, a[0].0));
    } else {
        lemma_sorted_tail(a);
        lemma_sorted_tail(b);
        lemma_key_lt_total(a[0].0, b[0].0);
        if key_lt(a[0].0, b[0].0) {
            lemma_below_first(b, a[0].0);
            assert(lookup(a, a[0].0) == lookup(b, a[0].0));
        } else if key_lt(b[0].0, a[0].0) {
            lemma_below_first(a, b[0].0);
            assert(lookup(a, b[0].0) == lookup(b, b[0].0));
        } else {
            assert(lookup(a, a[0].0) == lookup(b, a[0].0));
            let (c, d) = (a.drop_first(), b.drop_first());
            lemma_lookup_below(c, a[0].0);
            lemma_lookup_below(d, a[0].0);
            assert forall|key: Seq<char>| #[trigger] lookup(c, key) == lookup(d, key) by {
                assert(lookup(a, key) == lookup(b, key));
            }
            lemma_same_lookups(c, d);
            assert(a =~= seq![a[0]] + c);
            assert(b =~= seq![b[0]] + d);
        }
    }
}

/// Nothing is found below the first key.
pub proof fn lemma_below_first(members: Members, key: Seq<char>)
    requires
        sorted(members),
        members.len() > 0,
        key_lt(key, members[0].0),
    ensures
        all_above(members, key),
        lookup(members, key) is None,
{
    assert forall|i: int| 0 <= i < members.len() implies key_lt(
        key,
        (#[trigger] members[i]).0,
    ) by {
        if i > 0 {
            lemma_key_lt_transitive(key, members[0].0, members[i].0);
        }
    }
    lemma_lookup_below(members, key);
}

/// What is put in is found, and nothing else changes.
pub proof fn lemma_lookup_put(members: Members, key: Seq<char>, value: JsonView, other: Seq<char>)
    ensures
        lookup(put(members, key, value), other) == if other == key {
            Some(value)
        } else {
            lookup(members, other)
        },
{
    if has_key(members, key) {
        lemma_lookup_replaced(members, key, value, other);
    } else {
        lemma_lookup_slotted(members, key, value, other);
    }
}

proof fn lemma_lookup_replaced(
    members: Members,
    key: Seq<char>,
    value: JsonView,
    other: Seq<char>,
)
    requires
        has_key(members, key),
    ensures
        lookup(replaced(members, key, value), other) == if other == key {
            Some(value)
        } else {
            lookup(members, other)
        },
    decreases members.len(),
{
    let result = replaced(members, key, value);
    if members[0].0 == key {
        assert(result.drop_first() =~= members.drop_first());
    } else {
        lemma_lookup_replaced(members.drop_first(), key, value, other);
        assert(result.drop_first() =~= replaced(members.drop_first(), key, value));
    }
}

proof fn lemma_lookup_slotted(members: Members, key: Seq<char>, value: JsonView, other: Seq<char>)
    requires
        !has_key(members, key),
    ensures
        lookup(slotted(members, key, value), other) == if other == key {
            Some(value)
        } else {
            lookup(members, other)
        },
    decreases members.len(),
{
    let result = slotted(members, key, value);
    if members.len() == 0 {
        assert(result.drop_first() =~= members);
    } else if key_lt(key, members[0].0) {
        assert(result.drop_first() =~= members);
    } else {
        lemma_lookup_slotted(members.drop_first(), key, value, other);
        assert(result.drop_first() =~= slotted(members.drop_first(), key, value));
    }
}

/// Taking out a key leaves the others.
pub proof fn lemma_lookup_without(members: Members, key: Seq<char>, other: Seq<char>)
    ensures
        lookup(without(members, key), other) == if other == key {
            None
        } else {
            lookup(members, other)
        },
    decreases members.len(),
{
    lemma_filter_head(members, other_than(key));
    if members.len() > 0 {
        let rest = members.drop_first();
        lemma_lookup_without(rest, key, other);
        if members[0].0 != key {
            assert(without(members, key).drop_first() =~= without(rest, key));
        }
    }
}

/// What is left of a list, told from its front.
pub proof fn lemma_filter_head<A>(s: Seq<A>, keep: spec_fn(A) -> bool)
    ensures
        s.filter(keep) == if s.len() == 0 {
            Seq::empty()
        } else if keep(s[0]) {
            seq![s[0]] + s.drop_first().filter(keep)
        } else {
            s.drop_first().filter(keep)
        },
    decreases s.len(),
{
    reveal(Seq::filter);
    if s.len() == 0 {
        assert(s.filter(keep) =~= Seq::empty());
    } else if s.len() == 1 {
        assert(s.drop_last() =~= Seq::empty());
        assert(s.drop_first() =~= Seq::empty());
        assert(Seq::<A>::empty().filter(keep) =~= Seq::empty());
        if keep(s[0]) {
            assert(s.filter(keep) =~= seq![s[0]] + s.drop_first().filter(keep));
        } else {
            assert(s.filter(keep) =~= s.drop_first().filter(keep));
        }
    } else {
        lemma_filter_head(s.drop_last(), keep);
        assert(s.drop_last().drop_first() =~= s.drop_first().drop_last());
        assert(s.drop_first().last() == s.last());
        if keep(s[0]) {
            assert(s.filter(keep) =~= seq![s[0]] + s.drop_first().filter(keep));
        } else {
            assert(s.filter(keep) =~= s.drop_first().filter(keep));
        }
    }
}

/// Putting a member in keeps the order and the form of the values.
pub proof fn lemma_put_well_formed(members: Members, key: Seq<char>, value: JsonView)
    requires
        sorted(members),
        values_well_formed(members),
        well_formed(value),
    ensures
        sorted(put(members, key, value)),
        values_well_formed(put(members, key, value)),
    decreases members.len(),
{
    let result = put(members, key, value);
    if members.len() == 0 {
    } else if members[0].0 == key {
        lemma_sorted_tail(members);
        lemma_sorted_cons((key, value), members.drop_first());
        assert forall|i: int| 0 <= i < result.len() implies well_formed(
            (#[trigger] result[i]).1,
        ) by {
            if i > 0 {
                assert(result[i] == members[i]);
            }
        }
    } else if !has_key(members, key) && key_lt(key, members[0].0) {
        lemma_below_first(members, key);
        lemma_sorted_cons((key, value), members);
        assert forall|i: int| 0 <= i < result.len() implies well_formed(
            (#[trigger] result[i]).1,
        ) by {
            if i > 0 {
                assert(result[i] == members[i - 1]);
            }
        }
    } else {
        let rest = members.drop_first();
        lemma_sorted_tail(members);
        assert forall|i: int| 0 <= i < rest.len() implies well_formed((#[trigger] rest[i]).1) by {
            assert(rest[i] == members[i + 1]);
        }
        lemma_put_well_formed(rest, key, value);
        assert(result =~= seq![members[0]] + put(rest, key, value));
        if has_key(members, key) {
            let k = lemma_lookup_is_member(members, key);
            assert(key_lt(members[0].0, members[k].0));
        } else {
            lemma_key_lt_total(key, members[0].0);
        }
        lemma_put_above(rest, key, value, members[0].0);
        lemma_sorted_cons(members[0], put(rest, key, value));
        assert forall|i: int| 0 <= i < result.len() implies well_formed(
            (#[trigger] result[i]).1,
        ) by {
            if i > 0 {
                assert(result[i] == put(rest, key, value)[i - 1]);
            } else {
                assert(result[i] == members[0]);
            }
        }
    }
}

/// Keys stay above `low` when one above it is put in.
proof fn lemma_put_above(members: Members, key: Seq<char>, value: JsonView, low: Seq<char>)
    requires
        all_above(members, low),
        key_lt(low, key),
    ensures
        all_above(put(members, key, value), low),
    decreases members.len(),
{
    let result = put(members, key, value);
    if members.len() > 0 {
        let rest = members.drop_first();
        assert forall|i: int| 0 <= i < rest.len() implies key_lt(low, (#[trigger] rest[i]).0) by {
            assert(rest[i] == members[i + 1]);
        }
        if members[0].0 == key || (!has_key(members, key) && key_lt(key, members[0].0)) {
            assert forall|i: int| 0 <= i < result.len() implies key_lt(
                low,
                (#[trigger] result[i]).0,
            ) by {
                if i > 0 {
                    assert(result[i] == members[i] || result[i] == members[i - 1]);
                }
            }
        } else {
            lemma_put_above(rest, key, value, low);
            assert(result =~= seq![members[0]] + put(rest, key, value));
            assert forall|i: int| 0 <= i < result.len() implies key_lt(
                low,
                (#[trigger] result[i]).0,
            ) by {
                if i > 0 {
                    assert(result[i] == put(rest, key, value)[i - 1]);
                } else {
                    assert(result[i] == members[0]);
                }
            }
        }
    }
}

/// Dropping members keeps the order and the form of the values.
pub proof fn lemma_filter_well_formed(
    members: Members,
    keep: spec_fn((Seq<char>, JsonView)) -> bool,
)
    requires
        sorted(members),
        values_well_formed(members),
    ensures
        sorted(members.filter(keep)),
        values_well_formed(members.filter(keep)),
        forall|i: int|
            0 <= i < members.filter(keep).len() ==> keep(#[trigger] members.filter(keep)[i]),
        forall|low: Seq<char>| #[trigger]
            all_above(members, low) ==> all_above(members.filter(keep), low),
    decreases members.len(),
{
    lemma_filter_head(members, keep);
    let result = members.filter(keep);
    if members.len() > 0 {
        let rest = members.drop_first();
        lemma_sorted_tail(members);
        assert forall|i: int| 0 <= i < rest.len() implies well_formed((#[trigger] rest[i]).1) by {
            assert(rest[i] == members[i + 1]);
        }
        lemma_filter_well_formed(rest, keep);
        assert forall|low: Seq<char>| #[trigger] all_above(members, low) implies all_above(
            rest,
            low,
        ) by {
            assert forall|i: int| 0 <= i < rest.len() implies key_lt(
                low,
                (#[trigger] rest[i]).0,
            ) by {
                assert(rest[i] == members[i + 1]);
            }
        }
        if keep(members[0]) {
            lemma_sorted_cons(members[0], rest.filter(keep));
            assert forall|i: int| 0 <= i < result.len() implies well_formed(
                (#[trigger] result[i]).1,
            ) && keep(result[i]) by {
                if i > 0 {
                    assert(result[i] == rest.filter(keep)[i - 1]);
                } else {
                    assert(result[i] == members[0]);
                }
            }
            assert forall|low: Seq<char>| #[trigger] all_above(members, low) implies all_above(
                result,
                low,
            ) by {
                assert forall|i: int| 0 <= i < result.len() implies key_lt(
                    low,
                    (#[trigger] result[i]).0,
                ) by {
                    if i > 0 {
                        assert(result[i] == rest.filter(keep)[i - 1]);
                        assert(all_above(rest, low));
                    } else {
                        assert(result[i] == members[0]);
                    }
                }
            }
        }
    }
}

} // verus!
