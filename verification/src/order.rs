//! The order in which bindings are processed: by the rank of the action
//! first, by the code of the button second.

use vstd::prelude::*;
use itertools::Itertools;
use std::cmp::Ordering;

verus! {

/// Whether the pair `a` comes before the pair `b` or is `b`, where pairs are
/// ordered by their first numbers, and by their second numbers where the
/// first are equal.
pub open spec fn pair_le(a: (u64, u64), b: (u64, u64)) -> bool {
    a.0 < b.0 || (a.0 == b.0 && a.1 <= b.1)
}

/// Whether the pairs ascend.
pub open spec fn ascending(pairs: Seq<(u64, u64)>) -> bool {
    forall|i: int, j: int| 0 <= i < j < pairs.len() ==> pair_le(#[trigger] pairs[i], #[trigger] pairs[j])
}

/// Compares two pairs by their first numbers, and by their second numbers
/// where the first are equal.
pub fn compare_pairs(a: &(u64, u64), b: &(u64, u64)) -> (o: Ordering)
    ensures
        o == Ordering::Less <==> pair_le(*a, *b) && *a != *b,
        o == Ordering::Equal <==> *a == *b,
        o == Ordering::Greater <==> !pair_le(*a, *b),
{
    if a.0 < b.0 {
        Ordering::Less
    } else if a.0 > b.0 {
        Ordering::Greater
    } else if a.1 < b.1 {
        Ordering::Less
    } else if a.1 > b.1 {
        Ordering::Greater
    } else {
        Ordering::Equal
    }
}

/// Sorts the pairs with `Itertools::sorted_by`, which collects them and
/// sorts them with the stable sort of slices, under [`compare_pairs`].
/// Believed of it, not proved: what comes back holds the same pairs, each as
/// often as before, in ascending order.
#[verifier::external_body]
pub(crate) fn sort_pairs(pairs: Vec<(u64, u64)>) -> (sorted: Vec<(u64, u64)>)
    ensures
        sorted@.to_multiset() == pairs@.to_multiset(),
        ascending(sorted@),
{
    pairs.into_iter().sorted_by(|a, b| compare_pairs(a, b)).collect()
}

/// Sorting neither adds nor drops a pair.
pub proof fn same_pairs(sorted: Seq<(u64, u64)>, pairs: Seq<(u64, u64)>)
    requires
        sorted.to_multiset() == pairs.to_multiset(),
    ensures
        sorted.len() == pairs.len(),
        forall|p: (u64, u64)| sorted.contains(p) <==> pairs.contains(p),
        pairs.no_duplicates() ==> sorted.no_duplicates(),
{
    sorted.to_multiset_ensures();
    pairs.to_multiset_ensures();
    assert forall|p: (u64, u64)| sorted.contains(p) <==> pairs.contains(p) by {
        assert(sorted.contains(p) <==> sorted.to_multiset().count(p) > 0);
        assert(pairs.contains(p) <==> pairs.to_multiset().count(p) > 0);
    }
    if pairs.no_duplicates() {
        pairs.lemma_multiset_has_no_duplicates();
        sorted.lemma_multiset_has_no_duplicates_conv();
    }
}

} // verus!
