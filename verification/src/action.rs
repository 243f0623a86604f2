//! The logical actions that buttons are bound to.

use vstd::prelude::*;
use vstd::std_specs::cmp::OrdSpec;
use std::cmp::Ordering;
use std::hash::Hash;

verus! {

/// A logical action to be bound to buttons, such as jump, attack or move
/// forward. The embedding application supplies the type.
///
/// Actions are totally ordered by their rank; the conversions between the two
/// views of a binding set go by this order, so that their result does not
/// depend on the order in which a container hands out its entries. The
/// library tells actions apart by their rank alone: an implementation gives
/// distinct actions distinct ranks, and keeps the rank in step with `Ord`,
/// so that `a < b` exactly when `a.rank() < b.rank()`. [`rank_law`] states
/// both; where it holds, what the contracts say of a rank they say of the
/// one action that has it.
pub trait Action: Copy + Eq + Hash + Ord {
    /// The rank of the action, as contracts speak of it.
    spec fn spec_rank(&self) -> u64;

    /// The rank of the action: its position in the total order of actions.
    fn rank(&self) -> (r: u64)
        ensures
            r == self.spec_rank(),
    ;
}

/// Whether distinct actions have distinct ranks.
pub open spec fn distinct_ranks<A: Action>() -> bool {
    forall|a: A, b: A|
        #![trigger a.spec_rank(), b.spec_rank()]
        a.spec_rank() == b.spec_rank() ==> a == b
}

/// Whether the ranks are in step with `Ord`: comparing two actions gives
/// what comparing their ranks gives.
pub open spec fn ranks_follow_ord<A: Action>() -> bool {
    forall|a: A, b: A|
        #![trigger a.cmp_spec(&b)]
        a.cmp_spec(&b) == (if a.spec_rank() < b.spec_rank() {
            Ordering::Less
        } else if a.spec_rank() == b.spec_rank() {
            Ordering::Equal
        } else {
            Ordering::Greater
        })
}

/// The law that an implementation of [`Action`] is to keep: distinct
/// actions have distinct ranks, and the ranks are in step with `Ord`.
pub open spec fn rank_law<A: Action>() -> bool {
    distinct_ranks::<A>() && ranks_follow_ord::<A>()
}

} // verus!
