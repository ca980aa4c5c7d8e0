//! The order of object keys.

use vstd::prelude::*;

verus! {

broadcast use vstd::string::group_string_axioms;

/// How one key stands to another.
pub enum KeyOrder {
    Less,
    Equal,
    Greater,
}

/// `a` comes before `b` in the lexicographic order of code points.
pub open spec fn key_lt(a: Seq<char>, b: Seq<char>) -> bool
    decreases a.len(),
{
    if b.len() == 0 {
        false
    } else if a.len() == 0 {
        true
    } else if a[0] == b[0] {
        key_lt(a.drop_first(), b.drop_first())
    } else {
        a[0] < b[0]
    }
}

/// No key comes before itself.
pub proof fn lemma_key_lt_irreflexive(a: Seq<char>)
    ensures
        !key_lt(a, a),
    decreases a.len(),
{
    if a.len() > 0 {
        lemma_key_lt_irreflexive(a.drop_first());
    }
}

/// The order of keys is transitive.
pub proof fn lemma_key_lt_transitive(a: Seq<char>, b: Seq<char>, c: Seq<char>)
    requires
        key_lt(a, b),
        key_lt(b, c),
    ensures
        key_lt(a, c),
    decreases a.len(),
{
    if a.len() > 0 && a[0] == b[0] && b[0] == c[0] {
        lemma_key_lt_transitive(a.drop_first(), b.drop_first(), c.drop_first());
    }
}

/// Of two different keys one comes before the other.
pub proof fn lemma_key_lt_total(a: Seq<char>, b: Seq<char>)
    ensures
        key_lt(a, b) || a == b || key_lt(b, a),
    decreases a.len(),
{
    if a.len() > 0 && b.len() > 0 && a[0] == b[0] {
        lemma_key_lt_total(a.drop_first(), b.drop_first());
        if a.drop_first() == b.drop_first() {
            assert(a =~= seq![a[0]] + a.drop_first());
            assert(b =~= seq![b[0]] + b.drop_first());
        }
    } else if a.len() == 0 && b.len() == 0 {
        assert(a =~= b);
    }
}

/// Compares two keys.
pub fn key_order(a: &str, b: &str) -> (order: KeyOrder)
    ensures
        match order {
            KeyOrder::Less => key_lt(a@, b@),
            KeyOrder::Equal => a@ == b@,
            KeyOrder::Greater => key_lt(b@, a@),
        },
{
    let mut left = a.chars();
    let mut right = b.chars();
    let ghost mut i: int = 0;
    assert(a@.skip(0) =~= a@);
    assert(b@.skip(0) =~= b@);
    loop
        invariant
            0 <= i <= a@.len(),
            i <= b@.len(),
            vstd::std_specs::iter::IteratorSpec::obeys_prophetic_iter_laws(&left),
            vstd::std_specs::iter::IteratorSpec::obeys_prophetic_iter_laws(&right),
            vstd::std_specs::iter::IteratorSpec::remaining(&left) == a@.skip(i),
            vstd::std_specs::iter::IteratorSpec::remaining(&right) == b@.skip(i),
            a@.take(i) == b@.take(i),
            key_lt(a@, b@) == key_lt(a@.skip(i), b@.skip(i)),
            key_lt(b@, a@) == key_lt(b@.skip(i), a@.skip(i)),
        decreases a@.len() - i,
    {
        let x = left.next();
        let y = right.next();
        match (x, y) {
            (None, None) => {
                assert(a@ =~= a@.take(i));
                assert(b@ =~= b@.take(i));
                return KeyOrder::Equal;
            },
            (None, Some(_)) => return KeyOrder::Less,
            (Some(_), None) => return KeyOrder::Greater,
            (Some(c), Some(d)) => {
                if c < d {
                    return KeyOrder::Less;
                }
                if d < c {
                    return KeyOrder::Greater;
                }
                proof {
                    assert(a@.skip(i).drop_first() =~= a@.skip(i + 1));
                    assert(b@.skip(i).drop_first() =~= b@.skip(i + 1));
                    assert(a@.take(i + 1) =~= a@.take(i).push(a@[i]));
                    assert(b@.take(i + 1) =~= b@.take(i).push(b@[i]));
                    i = i + 1;
                }
            },
        }
    }
}

/// Whether one key comes before another.
pub fn is_less(a: &str, b: &str) -> (less: bool)
    ensures
        less == key_lt(a@, b@),
        !less ==> a@ == b@ || key_lt(b@, a@),
        less ==> !key_lt(b@, a@),
{
    proof {
        lemma_key_lt_irreflexive(a@);
        if key_lt(a@, b@) && key_lt(b@, a@) {
            lemma_key_lt_transitive(a@, b@, a@);
        }
    }
    match key_order(a, b) {
        KeyOrder::Less => true,
        _ => false,
    }
}

/// Whether two keys are the same.
pub fn same_key(a: &str, b: &str) -> (same: bool)
    ensures
        same == (a@ == b@),
{
    proof {
        lemma_key_lt_irreflexive(a@);
    }
    match key_order(a, b) {
        KeyOrder::Equal => true,
        _ => false,
    }
}

} // verus!
