//! Groups of buttons by action: runs of bindings of one action are joined
//! into one group each, and a group is padded with empty slots.

use vstd::prelude::*;
use itertools::Itertools;
use crate::action::Action;
use crate::button::{Button, ButtonTuple};

verus! {

/// What a group is to the contracts: an action and the slots gathered for
/// it.
pub open spec fn group_view<A>(group: (A, Vec<Option<Button>>)) -> (A, Seq<Option<Button>>) {
    (group.0, group.1@)
}

/// A sequence of groups, each as contracts see it.
pub open spec fn groups_view<A>(groups: Seq<(A, Vec<Option<Button>>)>) -> Seq<
    (A, Seq<Option<Button>>),
> {
    Seq::new(groups.len(), |i: int| group_view(groups[i]))
}

/// Two groups of one rank join into one group, which holds the slots of the
/// first and then those of the second under the action of the first. Groups
/// of different ranks stay apart.
pub open spec fn joined<A: Action>(
    previous: (A, Seq<Option<Button>>),
    current: (A, Seq<Option<Button>>),
) -> Result<(A, Seq<Option<Button>>), ((A, Seq<Option<Button>>), (A, Seq<Option<Button>>))> {
    if previous.0.spec_rank() == current.0.spec_rank() {
        Ok((previous.0, previous.1 + current.1))
    } else {
        Err((previous, current))
    }
}

/// What comes of joining consecutive groups from left to right, starting
/// with `previous` in hand: where the group in hand joins with the next, the
/// joined group is in hand; where it does not, it is put out and the next is
/// in hand. The group in hand at the end is put out last.
pub open spec fn coalesced_onto<A: Action>(
    previous: (A, Seq<Option<Button>>),
    rest: Seq<(A, Seq<Option<Button>>)>,
) -> Seq<(A, Seq<Option<Button>>)>
    decreases rest.len(),
{
    if rest.len() == 0 {
        seq![previous]
    } else {
        match joined(previous, rest[0]) {
            Ok(both) => coalesced_onto(both, rest.drop_first()),
            Err((last, next)) => seq![last] + coalesced_onto(next, rest.drop_first()),
        }
    }
}

/// What comes of joining consecutive groups of one rank, from left to right.
pub open spec fn coalesced<A: Action>(groups: Seq<(A, Seq<Option<Button>>)>) -> Seq<
    (A, Seq<Option<Button>>),
> {
    if groups.len() == 0 {
        Seq::empty()
    } else {
        coalesced_onto(groups[0], groups.drop_first())
    }
}

/// The slots with empty slots behind them, as many as it takes to reach
/// `min` slots.
pub open spec fn padded(slots: Seq<Option<Button>>, min: nat) -> Seq<Option<Button>> {
    if slots.len() >= min {
        slots
    } else {
        slots + Seq::new((min - slots.len()) as nat, |i: int| None::<Button>)
    }
}

/// The first three of the slots as a tuple, with empty slots where there are
/// fewer than three.
pub open spec fn first_three(slots: Seq<Option<Button>>) -> ButtonTuple {
    let all = padded(slots, 3);
    ButtonTuple(all[0], all[1], all[2])
}

/// Joins two groups where their actions have one rank.
pub fn join_same_action<A: Action>(
    previous: (A, Vec<Option<Button>>),
    current: (A, Vec<Option<Button>>),
) -> (outcome: Result<
    (A, Vec<Option<Button>>),
    ((A, Vec<Option<Button>>), (A, Vec<Option<Button>>)),
>)
    ensures
        match outcome {
            Ok(both) => joined(group_view(previous), group_view(current)) == Ok::<
                (A, Seq<Option<Button>>),
                ((A, Seq<Option<Button>>), (A, Seq<Option<Button>>)),
            >(group_view(both)),
            Err((last, next)) => joined(group_view(previous), group_view(current)) == Err::<
                (A, Seq<Option<Button>>),
                ((A, Seq<Option<Button>>), (A, Seq<Option<Button>>)),
            >((group_view(last), group_view(next))),
        },
{
    let (action, mut slots) = previous;
    let (other, mut more) = current;
    if action.rank() == other.rank() {
        slots.append(&mut more);
        Ok((action, slots))
    } else {
        Err(((action, slots), (other, more)))
    }
}

/// An empty slot, whatever its position.
pub fn empty_slot(position: usize) -> (slot: Option<Button>)
    ensures
        slot is None,
{
    None
}

/// Joins consecutive groups of one rank with `Itertools::coalesce`, which
/// hands [`join_same_action`] the group in hand and the next group, keeps
/// what it joins in hand, and puts out the group in hand where it does not
/// join, and at the end. Believed of it, not proved: what comes back is what
/// [`coalesced`] says.
#[verifier::external_body]
pub(crate) fn coalesce_groups<A: Action>(groups: Vec<(A, Vec<Option<Button>>)>) -> (merged: Vec<
    (A, Vec<Option<Button>>),
>)
    ensures
        groups_view(merged@) == coalesced(groups_view(groups@)),
{
    groups.into_iter().coalesce(|previous, current| join_same_action(previous, current)).collect()
}

/// Pads the slots with `Itertools::pad_using`, which hands on what it is
/// given and then, while fewer than `min` items have gone out, what
/// [`empty_slot`] gives. Believed of it, not proved: what comes back is the
/// slots with as many empty slots behind them as it takes to reach `min`.
#[verifier::external_body]
pub(crate) fn pad_slots(slots: &Vec<Option<Button>>, min: usize) -> (all: Vec<Option<Button>>)
    ensures
        all@ == padded(slots@, min as nat),
{
    slots.iter().cloned().pad_using(min, |position| empty_slot(position)).collect()
}

/// The slots that the groups of the given rank hold, in the order of the
/// groups.
pub open spec fn gathered<A: Action>(groups: Seq<(A, Seq<Option<Button>>)>, rank: u64) -> Seq<
    Option<Button>,
>
    decreases groups.len(),
{
    if groups.len() == 0 {
        Seq::empty()
    } else if groups[0].0.spec_rank() == rank {
        groups[0].1 + gathered(groups.drop_first(), rank)
    } else {
        gathered(groups.drop_first(), rank)
    }
}

/// The action of the first group of the given rank.
pub open spec fn leader<A: Action>(groups: Seq<(A, Seq<Option<Button>>)>, rank: u64) -> Option<A>
    decreases groups.len(),
{
    if groups.len() == 0 {
        None
    } else if groups[0].0.spec_rank() == rank {
        Some(groups[0].0)
    } else {
        leader(groups.drop_first(), rank)
    }
}

/// The code of the button in a slot, and -1 for an empty slot.
pub open spec fn slot_code(slot: Option<Button>) -> int {
    match slot {
        Some(button) => button.spec_code() as int,
        None => -1,
    }
}

/// Whether each group holds one button, and of two groups of one rank the
/// first holds the button of the lower code.
pub open spec fn single_and_sorted<A: Action>(groups: Seq<(A, Seq<Option<Button>>)>) -> bool {
    &&& forall|i: int|
        0 <= i < groups.len() ==> (#[trigger] groups[i]).1.len() == 1 && groups[i].1[0] is Some
    &&& forall|i: int, j: int|
        0 <= i < j < groups.len() && (#[trigger] groups[i]).0.spec_rank() == (
        #[trigger] groups[j]).0.spec_rank() ==> slot_code(groups[i].1[0]) < slot_code(
            groups[j].1[0],
        )
}

/// Whether no group comes before a group of lower rank.
pub open spec fn ranks_ascend<A: Action>(groups: Seq<(A, Seq<Option<Button>>)>) -> bool {
    forall|i: int, j: int|
        0 <= i < j < groups.len() ==> (#[trigger] groups[i]).0.spec_rank() <= (
        #[trigger] groups[j]).0.spec_rank()
}

/// Whether each group has a higher rank than the groups before it.
pub open spec fn ranks_climb<A: Action>(groups: Seq<(A, Seq<Option<Button>>)>) -> bool {
    forall|i: int, j: int|
        0 <= i < j < groups.len() ==> (#[trigger] groups[i]).0.spec_rank() < (
        #[trigger] groups[j]).0.spec_rank()
}

/// Joining loses no slot and moves none to another rank.
pub proof fn coalescing_keeps_slots<A: Action>(
    previous: (A, Seq<Option<Button>>),
    rest: Seq<(A, Seq<Option<Button>>)>,
    rank: u64,
)
    ensures
        gathered(coalesced_onto(previous, rest), rank) == gathered(seq![previous] + rest, rank),
    decreases rest.len(),
{
    let all = seq![previous] + rest;
    assert(all[0] == previous);
    assert(all.drop_first() =~= rest);
    if rest.len() == 0 {
        assert(all =~= seq![previous]);
    } else {
        let tail = rest.drop_first();
        match joined(previous, rest[0]) {
            Ok(both) => {
                coalescing_keeps_slots(both, tail, rank);
                let joint = seq![both] + tail;
                assert(joint[0] == both);
                assert(joint.drop_first() =~= tail);
                assert(gathered(rest, rank) == if rest[0].0.spec_rank() == rank {
                    rest[0].1 + gathered(tail, rank)
                } else {
                    gathered(tail, rank)
                });
                assert((previous.1 + rest[0].1) + gathered(tail, rank) =~= previous.1 + (rest[0].1
                    + gathered(tail, rank)));
                assert(gathered(all, rank) =~= gathered(joint, rank));
            },
            Err((last, next)) => {
                coalescing_keeps_slots(next, tail, rank);
                let out = seq![last] + coalesced_onto(next, tail);
                assert(out[0] == previous);
                assert(out.drop_first() =~= coalesced_onto(next, tail));
                assert(seq![next] + tail =~= rest);
            },
        }
    }
}

/// Where the ranks of the groups ascend, joining leaves one group of each
/// rank, and the first group that comes out has the action of the first
/// that went in.
pub proof fn coalescing_separates_ranks<A: Action>(
    previous: (A, Seq<Option<Button>>),
    rest: Seq<(A, Seq<Option<Button>>)>,
)
    requires
        ranks_ascend(seq![previous] + rest),
    ensures
        coalesced_onto(previous, rest).len() >= 1,
        coalesced_onto(previous, rest)[0].0 == previous.0,
        ranks_climb(coalesced_onto(previous, rest)),
    decreases rest.len(),
{
    let all = seq![previous] + rest;
    if rest.len() > 0 {
        let tail = rest.drop_first();
        assert(all[0] == previous);
        assert(all[1] == rest[0]);
        match joined(previous, rest[0]) {
            Ok(both) => {
                let joint = seq![both] + tail;
                assert forall|i: int, j: int| 0 <= i < j < joint.len() implies (
                #[trigger] joint[i]).0.spec_rank() <= (#[trigger] joint[j]).0.spec_rank() by {
                    assert(joint[j] == all[j + 1]);
                    if i > 0 {
                        assert(joint[i] == all[i + 1]);
                    }
                }
                coalescing_separates_ranks(both, tail);
            },
            Err((last, next)) => {
                let fewer = seq![next] + tail;
                assert(fewer =~= rest);
                assert forall|i: int, j: int| 0 <= i < j < fewer.len() implies (
                #[trigger] fewer[i]).0.spec_rank() <= (#[trigger] fewer[j]).0.spec_rank() by {
                    assert(fewer[i] == all[i + 1]);
                    assert(fewer[j] == all[j + 1]);
                }
                coalescing_separates_ranks(next, tail);
                let inner = coalesced_onto(next, tail);
                let out = seq![last] + inner;
                assert forall|i: int, j: int| 0 <= i < j < out.len() implies (
                #[trigger] out[i]).0.spec_rank() < (#[trigger] out[j]).0.spec_rank() by {
                    assert(out[j] == inner[j - 1]);
                    if i > 0 {
                        assert(out[i] == inner[i - 1]);
                    } else {
                        if j > 1 {
                            assert(inner[0].0.spec_rank() < inner[j - 1].0.spec_rank());
                        }
                    }
                }
            },
        }
    }
}

/// Joining leaves no group without slots where none had none.
pub proof fn coalescing_keeps_groups_filled<A: Action>(
    previous: (A, Seq<Option<Button>>),
    rest: Seq<(A, Seq<Option<Button>>)>,
)
    requires
        previous.1.len() > 0,
        forall|i: int| 0 <= i < rest.len() ==> (#[trigger] rest[i]).1.len() > 0,
    ensures
        forall|i: int|
            0 <= i < coalesced_onto(previous, rest).len() ==> (#[trigger] coalesced_onto(
                previous,
                rest,
            )[i]).1.len() > 0,
    decreases rest.len(),
{
    let out = coalesced_onto(previous, rest);
    if rest.len() == 0 {
        assert(out =~= seq![previous]);
        assert forall|i: int| 0 <= i < out.len() implies (#[trigger] out[i]).1.len() > 0 by {
            assert(out[i] == previous);
        }
    } else {
        let tail = rest.drop_first();
        assert(rest[0].1.len() > 0);
        assert forall|i: int| 0 <= i < tail.len() implies (#[trigger] tail[i]).1.len() > 0 by {
            assert(tail[i] == rest[i + 1]);
        }
        match joined(previous, rest[0]) {
            Ok(both) => {
                coalescing_keeps_groups_filled(both, tail);
                assert(out == coalesced_onto(both, tail));
            },
            Err((last, next)) => {
                coalescing_keeps_groups_filled(next, tail);
                let inner = coalesced_onto(next, tail);
                assert(out == seq![last] + inner);
                assert forall|i: int| 0 <= i < out.len() implies (#[trigger] out[i]).1.len()
                    > 0 by {
                    if i > 0 {
                        assert(out[i] == inner[i - 1]);
                    }
                }
            },
        }
    }
}

/// No group of a rank, no slots gathered for it.
pub proof fn gathered_for_missing_rank<A: Action>(
    groups: Seq<(A, Seq<Option<Button>>)>,
    rank: u64,
)
    requires
        forall|i: int| 0 <= i < groups.len() ==> (#[trigger] groups[i]).0.spec_rank() != rank,
    ensures
        gathered(groups, rank) == Seq::<Option<Button>>::empty(),
    decreases groups.len(),
{
    if groups.len() > 0 {
        let tail = groups.drop_first();
        assert(groups[0].0.spec_rank() != rank);
        assert forall|i: int| 0 <= i < tail.len() implies (#[trigger] tail[i]).0.spec_rank()
            != rank by {
            assert(tail[i] == groups[i + 1]);
        }
        gathered_for_missing_rank(tail, rank);
    }
}

/// Where each rank has one group, the slots gathered for the rank of a
/// group are the slots of that group.
pub proof fn gathered_for_single_group<A: Action>(
    groups: Seq<(A, Seq<Option<Button>>)>,
    at: int,
)
    requires
        ranks_climb(groups),
        0 <= at < groups.len(),
    ensures
        gathered(groups, groups[at].0.spec_rank()) == groups[at].1,
    decreases groups.len(),
{
    let rank = groups[at].0.spec_rank();
    let tail = groups.drop_first();
    assert forall|i: int, j: int| 0 <= i < j < tail.len() implies (#[trigger] tail[i]).0.spec_rank()
        < (#[trigger] tail[j]).0.spec_rank() by {
        assert(tail[i] == groups[i + 1]);
        assert(tail[j] == groups[j + 1]);
    }
    if at == 0 {
        assert forall|i: int| 0 <= i < tail.len() implies (#[trigger] tail[i]).0.spec_rank()
            != rank by {
            assert(tail[i] == groups[i + 1]);
        }
        gathered_for_missing_rank(tail, rank);
        assert(groups[0].1 + Seq::<Option<Button>>::empty() =~= groups[0].1);
    } else {
        assert(tail[at - 1] == groups[at]);
        assert(groups[0].0.spec_rank() < groups[at].0.spec_rank());
        gathered_for_single_group(tail, at - 1);
    }
}

/// Joining keeps the first action of each rank.
pub proof fn coalescing_keeps_leader<A: Action>(
    previous: (A, Seq<Option<Button>>),
    rest: Seq<(A, Seq<Option<Button>>)>,
    rank: u64,
)
    ensures
        leader(coalesced_onto(previous, rest), rank) == leader(seq![previous] + rest, rank),
    decreases rest.len(),
{
    let all = seq![previous] + rest;
    assert(all[0] == previous);
    assert(all.drop_first() =~= rest);
    if rest.len() == 0 {
        assert(all =~= seq![previous]);
    } else {
        let tail = rest.drop_first();
        match joined(previous, rest[0]) {
            Ok(both) => {
                coalescing_keeps_leader(both, tail, rank);
                let joint = seq![both] + tail;
                assert(joint[0] == both);
                assert(joint.drop_first() =~= tail);
                assert(leader(rest, rank) == if rest[0].0.spec_rank() == rank {
                    Some(rest[0].0)
                } else {
                    leader(tail, rank)
                });
            },
            Err((last, next)) => {
                coalescing_keeps_leader(next, tail, rank);
                let out = seq![last] + coalesced_onto(next, tail);
                assert(out[0] == previous);
                assert(out.drop_first() =~= coalesced_onto(next, tail));
                assert(seq![next] + tail =~= rest);
            },
        }
    }
}

/// Where each rank has one group, the first action of the rank of a group
/// is the action of that group.
pub proof fn leader_of_single_group<A: Action>(groups: Seq<(A, Seq<Option<Button>>)>, at: int)
    requires
        ranks_climb(groups),
        0 <= at < groups.len(),
    ensures
        leader(groups, groups[at].0.spec_rank()) == Some(groups[at].0),
    decreases groups.len(),
{
    if at > 0 {
        let tail = groups.drop_first();
        assert forall|i: int, j: int| 0 <= i < j < tail.len() implies (
        #[trigger] tail[i]).0.spec_rank() < (#[trigger] tail[j]).0.spec_rank() by {
            assert(tail[i] == groups[i + 1]);
            assert(tail[j] == groups[j + 1]);
        }
        assert(tail[at - 1] == groups[at]);
        assert(groups[0].0.spec_rank() < groups[at].0.spec_rank());
        leader_of_single_group(tail, at - 1);
    }
}

/// What is gathered for a rank from groups of one button each, where the
/// groups of one rank ascend by code: the buttons of the groups of that
/// rank, each once, in ascending order, the first of them from the group
/// whose action leads the rank.
pub proof fn gathered_from_singles<A: Action>(groups: Seq<(A, Seq<Option<Button>>)>, rank: u64)
    requires
        single_and_sorted(groups),
    ensures
        forall|p: int|
            0 <= p < gathered(groups, rank).len() ==> exists|i: int|
                0 <= i < groups.len() && (#[trigger] groups[i]).0.spec_rank() == rank
                    && groups[i].1[0] == #[trigger] gathered(groups, rank)[p],
        forall|i: int|
            0 <= i < groups.len() && (#[trigger] groups[i]).0.spec_rank() == rank ==> gathered(
                groups,
                rank,
            ).contains(groups[i].1[0]),
        forall|p: int, q: int|
            0 <= p < q < gathered(groups, rank).len() ==> slot_code(
                #[trigger] gathered(groups, rank)[p],
            ) < slot_code(#[trigger] gathered(groups, rank)[q]),
        gathered(groups, rank).len() > 0 ==> exists|i: int|
            0 <= i < groups.len() && (#[trigger] groups[i]).0.spec_rank() == rank
                && groups[i].1[0] == gathered(groups, rank)[0] && leader(groups, rank) == Some(
                groups[i].0,
            ),
    decreases groups.len(),
{
    let all = gathered(groups, rank);
    if groups.len() > 0 {
        let tail = groups.drop_first();
        let fewer = gathered(tail, rank);
        assert forall|i: int| 0 <= i < tail.len() implies (#[trigger] tail[i]).1.len() == 1
            && tail[i].1[0] is Some by {
            assert(tail[i] == groups[i + 1]);
        }
        assert forall|i: int, j: int|
            0 <= i < j < tail.len() && (#[trigger] tail[i]).0.spec_rank() == (
            #[trigger] tail[j]).0.spec_rank() implies slot_code(tail[i].1[0]) < slot_code(
            tail[j].1[0],
        ) by {
            assert(tail[i] == groups[i + 1]);
            assert(tail[j] == groups[j + 1]);
        }
        gathered_from_singles(tail, rank);
        let first = groups[0];
        let shift: int = if first.0.spec_rank() == rank {
            1
        } else {
            0
        };
        if first.0.spec_rank() == rank {
            assert(all =~= first.1 + fewer);
            assert(first.1 =~= seq![first.1[0]]);
            assert(all[0] == first.1[0]);
        } else {
            assert(all == fewer);
        }
        assert(all.len() == fewer.len() + shift);
        assert forall|p: int| shift <= p < all.len() implies all[p] == fewer[p - shift] by {}
        assert forall|p: int| 0 <= p < all.len() implies exists|i: int|
            0 <= i < groups.len() && (#[trigger] groups[i]).0.spec_rank() == rank && groups[i].1[0]
                == #[trigger] all[p] by {
            if p < shift {
                assert(groups[0].0.spec_rank() == rank && groups[0].1[0] == all[p]);
            } else {
                assert(all[p] == fewer[p - shift]);
                let i = choose|i: int|
                    0 <= i < tail.len() && (#[trigger] tail[i]).0.spec_rank() == rank
                        && tail[i].1[0] == fewer[p - shift];
                assert(tail[i] == groups[i + 1]);
                assert(groups[i + 1].0.spec_rank() == rank && groups[i + 1].1[0] == all[p]);
            }
        }
        assert forall|i: int|
            0 <= i < groups.len() && (#[trigger] groups[i]).0.spec_rank() == rank implies all.contains(
            groups[i].1[0],
        ) by {
            if i == 0 {
                assert(all[0] == groups[0].1[0]);
            } else {
                assert(tail[i - 1] == groups[i]);
                assert(fewer.contains(tail[i - 1].1[0]));
                let p = choose|p: int| 0 <= p < fewer.len() && fewer[p] == tail[i - 1].1[0];
                assert(all[p + shift] == groups[i].1[0]);
            }
        }
        assert forall|p: int, q: int| 0 <= p < q < all.len() implies slot_code(#[trigger] all[p])
            < slot_code(#[trigger] all[q]) by {
            assert(all[q] == fewer[q - shift]);
            if p < shift {
                let i = choose|i: int|
                    0 <= i < tail.len() && (#[trigger] tail[i]).0.spec_rank() == rank
                        && tail[i].1[0] == fewer[q - shift];
                assert(tail[i] == groups[i + 1]);
                assert(groups[0].0.spec_rank() == groups[i + 1].0.spec_rank());
            } else {
                assert(all[p] == fewer[p - shift]);
            }
        }
        if all.len() > 0 {
            if shift == 1 {
                assert(groups[0].0.spec_rank() == rank && groups[0].1[0] == all[0] && leader(
                    groups,
                    rank,
                ) == Some(groups[0].0));
            } else {
                let i = choose|i: int|
                    0 <= i < tail.len() && (#[trigger] tail[i]).0.spec_rank() == rank
                        && tail[i].1[0] == fewer[0] && leader(tail, rank) == Some(tail[i].0);
                assert(tail[i] == groups[i + 1]);
                assert(groups[i + 1].0.spec_rank() == rank && groups[i + 1].1[0] == all[0]
                    && leader(groups, rank) == Some(groups[i + 1].0));
            }
        }
    }
}

} // verus!
