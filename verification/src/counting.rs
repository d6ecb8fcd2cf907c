//! Counting the items of a sequence that have a property, and why the count
//! does not depend on the order.

use vstd::multiset::*;
use vstd::prelude::*;
use vstd::seq_lib::*;

verus! {

/// How many items of `s` satisfy `wanted`.
pub open spec fn count_where<T>(s: Seq<T>, wanted: spec_fn(T) -> bool) -> nat
    decreases s.len(),
{
    if s.len() == 0 {
        0
    } else {
        count_where(s.drop_last(), wanted) + if wanted(s.last()) {
            1nat
        } else {
            0nat
        }
    }
}

/// Taking one item out lowers the count by one if the item was wanted.
pub proof fn lemma_count_remove<T>(s: Seq<T>, wanted: spec_fn(T) -> bool, i: int)
    requires
        0 <= i < s.len(),
    ensures
        count_where(s, wanted) == count_where(s.remove(i), wanted) + if wanted(s[i]) {
            1nat
        } else {
            0nat
        },
    decreases s.len(),
{
    if i == s.len() - 1 {
        assert(s.remove(i) =~= s.drop_last());
    } else {
        lemma_count_remove(s.drop_last(), wanted, i);
        assert(s.remove(i).drop_last() =~= s.drop_last().remove(i));
        assert(s.remove(i).last() == s.last());
    }
}

/// Two sequences that hold the same items, in whatever order, have the same
/// count.
pub proof fn lemma_count_permutation<T>(a: Seq<T>, b: Seq<T>, wanted: spec_fn(T) -> bool)
    requires
        a.to_multiset() == b.to_multiset(),
    ensures
        count_where(a, wanted) == count_where(b, wanted),
    decreases a.len(),
{
    broadcast use group_multiset_axioms;

    to_multiset_len(a);
    to_multiset_len(b);
    if a.len() > 0 {
        let x = a.last();
        assert(a =~= a.drop_last().push(x));
        to_multiset_build(a.drop_last(), x);
        to_multiset_contains(b, x);
        assert(a.to_multiset().count(x) > 0);
        let j = choose|j: int| 0 <= j < b.len() && b[j] == x;
        to_multiset_remove(b, j);
        assert(a.drop_last().to_multiset() =~= b.remove(j).to_multiset());
        lemma_count_permutation(a.drop_last(), b.remove(j), wanted);
        lemma_count_remove(b, wanted, j);
    }
}

/// What holds of every item of a sequence holds of every item of any other
/// sequence that holds the same items.
pub proof fn lemma_all_permutation<T>(a: Seq<T>, b: Seq<T>, good: spec_fn(T) -> bool)
    requires
        a.to_multiset() == b.to_multiset(),
        forall|i: int| 0 <= i < a.len() ==> good(#[trigger] a[i]),
    ensures
        forall|i: int| 0 <= i < b.len() ==> good(#[trigger] b[i]),
{
    assert forall|i: int| 0 <= i < b.len() implies good(#[trigger] b[i]) by {
        let x = b[i];
        assert(b.contains(x));
        to_multiset_contains(b, x);
        to_multiset_contains(a, x);
        let j = choose|j: int| 0 <= j < a.len() && a[j] == x;
        assert(good(a[j]));
    }
}

/// A sequence whose first `k` items are wanted and whose others are not has
/// the count `k`.
pub proof fn lemma_count_prefix<T>(s: Seq<T>, wanted: spec_fn(T) -> bool, k: int)
    requires
        0 <= k <= s.len(),
        forall|i: int| 0 <= i < s.len() ==> (wanted(#[trigger] s[i]) <==> i < k),
    ensures
        count_where(s, wanted) == k,
    decreases s.len(),
{
    if s.len() > 0 {
        let rest = s.drop_last();
        let k2 = if k == s.len() {
            k - 1
        } else {
            k
        };
        assert forall|i: int| 0 <= i < rest.len() implies (wanted(#[trigger] rest[i]) <==> i
            < k2) by {
            assert(rest[i] == s[i]);
        }
        lemma_count_prefix(rest, wanted, k2);
    }
}

/// Where every item has exactly one of two properties, the two counts add up
/// to the length.
pub proof fn lemma_count_split<T>(s: Seq<T>, one: spec_fn(T) -> bool, other: spec_fn(T) -> bool)
    requires
        forall|i: int| 0 <= i < s.len() ==> (one(#[trigger] s[i]) != other(s[i])),
    ensures
        count_where(s, one) + count_where(s, other) == s.len(),
    decreases s.len(),
{
    if s.len() > 0 {
        let rest = s.drop_last();
        assert forall|i: int| 0 <= i < rest.len() implies (one(#[trigger] rest[i]) != other(
            rest[i],
        )) by {
            assert(rest[i] == s[i]);
        }
        lemma_count_split(rest, one, other);
        assert(s.last() == s[s.len() - 1]);
    }
}

} // verus!
