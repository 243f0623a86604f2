//! What holds of the conversions between the two views of a binding set.

use vstd::prelude::*;
use vstd::set_lib::{lemma_len_subset, lemma_set_subset_finite};
use crate::action::{distinct_ranks, Action};
use crate::button::{Button, ButtonTuple};
use crate::conversion::{
    bound_under, flatten, holder, is_lowest, lowest, lowest_three, ranked, regroup, top_holder,
    without,
};
use crate::rebind::InputRebind;
use crate::translator::InputTranslator;

verus! {

/// Where distinct actions have distinct ranks, what well formed rebind
/// bindings hold under the rank of an action is that action and no other.
pub proof fn rank_names_the_action<A: Action>(rebind: Map<u64, (A, ButtonTuple)>, action: A)
    requires
        distinct_ranks::<A>(),
        ranked(rebind),
        rebind.contains_key(action.spec_rank()),
    ensures
        rebind[action.spec_rank()].0 == action,
{
    let filed = rebind[action.spec_rank()].0;
    assert(filed.spec_rank() == action.spec_rank());
}

/// The same of a rebind: where distinct actions have distinct ranks, a well
/// formed rebind that has an entry under the rank of an action has the
/// action itself there, so that `get_bindings` gives the buttons of that
/// action and of no other.
pub proof fn present_action_is_filed<A: Action>(rebind: InputRebind<A>, action: A)
    requires
        distinct_ranks::<A>(),
        rebind.wf(),
        rebind.bindings().contains_key(action.spec_rank()),
    ensures
        rebind.bindings()[action.spec_rank()].0 == action,
{
    rank_names_the_action(rebind.bindings(), action);
}

/// Where distinct actions have distinct ranks, the buttons that translator
/// bindings bind to actions of the rank of an action are the buttons bound
/// to that action.
pub proof fn bound_under_rank_is_bound_to_action<A: Action>(
    translator: Map<Button, A>,
    action: A,
    button: Button,
)
    requires
        distinct_ranks::<A>(),
    ensures
        bound_under(translator, action.spec_rank()).contains(button) <==> translator.contains_key(
            button,
        ) && translator[button] == action,
{
    if translator.contains_key(button) {
        let bound = translator[button];
        assert(bound.spec_rank() == action.spec_rank() ==> bound == action);
    }
}

/// The button that is lowest in a set is the one that `lowest` names.
pub proof fn lowest_is_unique(buttons: Set<Button>, button: Button)
    requires
        is_lowest(buttons, button),
    ensures
        lowest(buttons) == Some(button),
{
    let chosen = choose|b: Button| is_lowest(buttons, b);
    assert(buttons.contains(chosen) && buttons.contains(button));
    Button::code_identifies(chosen, button);
}

/// A finite set with a button in it has a lowest button.
pub proof fn finite_set_has_lowest(buttons: Set<Button>)
    requires
        buttons.finite(),
        buttons.len() > 0,
    ensures
        lowest(buttons) is Some,
        is_lowest(buttons, lowest(buttons)->0),
    decreases buttons.len(),
{
    broadcast use vstd::set::group_set_axioms;

    let one = buttons.choose();
    let rest = buttons.remove(one);
    if rest.len() == 0 {
        assert forall|other: Button| #[trigger] buttons.contains(other) implies one.spec_code()
            <= other.spec_code() by {
            if other != one {
                assert(rest.contains(other));
            }
        }
        assert(is_lowest(buttons, one));
    } else {
        finite_set_has_lowest(rest);
        let least = lowest(rest)->0;
        if one.spec_code() <= least.spec_code() {
            assert forall|other: Button| #[trigger] buttons.contains(other) implies one.spec_code()
                <= other.spec_code() by {
                if other != one {
                    assert(rest.contains(other));
                }
            }
            assert(is_lowest(buttons, one));
        } else {
            assert forall|other: Button| #[trigger] buttons.contains(other) implies least.spec_code()
                <= other.spec_code() by {
                if other != one {
                    assert(rest.contains(other));
                }
            }
            assert(is_lowest(buttons, least));
        }
    }
}

/// The three lowest buttons of a set are buttons of the set.
pub proof fn lowest_three_are_members(buttons: Set<Button>, button: Button)
    requires
        lowest_three(buttons).holds(button),
    ensures
        buttons.contains(button),
{
    let first = lowest(buttons);
    let fewer = without(buttons, first);
    let second = lowest(fewer);
    let fewest = without(fewer, second);
    let third = lowest(fewest);
    if first == Some(button) {
        assert(is_lowest(buttons, button));
    } else if second == Some(button) {
        assert(is_lowest(fewer, button));
    } else {
        assert(third == Some(button));
        assert(is_lowest(fewest, button));
        assert(fewer.contains(button));
    }
}

/// Of at most three buttons, each is among the three lowest.
pub proof fn lowest_three_of_few(buttons: Set<Button>, button: Button)
    requires
        buttons.finite(),
        buttons.len() <= 3,
        buttons.contains(button),
    ensures
        lowest_three(buttons).holds(button),
{
    broadcast use vstd::set::group_set_axioms;

    finite_set_has_lowest(buttons);
    let first = lowest(buttons);
    if first != Some(button) {
        let fewer = without(buttons, first);
        assert(fewer.contains(button));
        finite_set_has_lowest(fewer);
        let second = lowest(fewer);
        if second != Some(button) {
            let fewest = without(fewer, second);
            assert(fewest.contains(button));
            finite_set_has_lowest(fewest);
            let third = lowest(fewest);
            if third != Some(button) {
                let none = without(fewest, third);
                assert(none.contains(button));
                assert(none.len() == 0);
            }
        }
    }
}

/// Buttons that one tuple holds are at most three.
pub proof fn held_buttons_are_few(tuple: ButtonTuple, buttons: Set<Button>)
    requires
        forall|button: Button| #[trigger] buttons.contains(button) ==> tuple.holds(button),
    ensures
        buttons.finite(),
        buttons.len() <= 3,
{
    broadcast use vstd::set::group_set_axioms;

    let none = Set::<Button>::empty();
    let one = with_slot(none, tuple.0);
    let two = with_slot(one, tuple.1);
    let all = with_slot(two, tuple.2);
    assert(buttons.subset_of(all));
    lemma_set_subset_finite(all, buttons);
    lemma_len_subset(buttons, all);
}

/// The set and the button that the slot holds.
pub open spec fn with_slot(buttons: Set<Button>, slot: Option<Button>) -> Set<Button> {
    match slot {
        Some(button) => buttons.insert(button),
        None => buttons,
    }
}

/// A button that some action holds has an action of highest rank that holds
/// it.
pub proof fn some_holder_is_highest<A: Action>(
    rebind: Map<u64, (A, ButtonTuple)>,
    rank: u64,
    button: Button,
)
    requires
        holder(rebind, rank, button),
    ensures
        exists|top: u64| top_holder(rebind, top, button),
    decreases u64::MAX - rank,
{
    if forall|other: u64| #[trigger] holder(rebind, other, button) ==> other <= rank {
        assert(top_holder(rebind, rank, button));
    } else {
        let higher = choose|other: u64| #[trigger]
            holder(rebind, other, button) && !(other <= rank);
        some_holder_is_highest(rebind, higher, button);
    }
}

/// A button that several actions hold goes to the action of the highest
/// rank among them: where an action holds a button and no action of a higher
/// rank holds it, the translator that the rebind converts to binds the
/// button to that action.
pub proof fn highest_rank_wins<A: Action>(
    rebind: Map<u64, (A, ButtonTuple)>,
    rank: u64,
    button: Button,
)
    requires
        top_holder(rebind, rank, button),
    ensures
        flatten(rebind).contains_key(button),
        flatten(rebind)[button] == rebind[rank].0,
{
    let chosen = choose|top: u64| top_holder(rebind, top, button);
    assert(holder(rebind, chosen, button));
    assert(chosen <= rank && rank <= chosen);
}

/// Where more than three buttons are bound to an action, the three of the
/// lowest codes stay and the others are dropped: where three buttons are
/// bound to an action and every other button bound to it has a higher code
/// than these, the rebind that the translator converts to gives the action
/// exactly these three, in ascending order.
pub proof fn three_lowest_stay<A: Action>(
    translator: Map<Button, A>,
    rank: u64,
    first: Button,
    second: Button,
    third: Button,
)
    requires
        bound_under(translator, rank).contains(first),
        bound_under(translator, rank).contains(second),
        bound_under(translator, rank).contains(third),
        first.spec_code() < second.spec_code() < third.spec_code(),
        forall|other: Button| #[trigger]
            bound_under(translator, rank).contains(other) ==> other == first || other == second
                || third.spec_code() <= other.spec_code(),
    ensures
        regroup(translator).contains_key(rank),
        regroup(translator)[rank].0 == translator[first],
        regroup(translator)[rank].1 == ButtonTuple(Some(first), Some(second), Some(third)),
        forall|other: Button|
            bound_under(translator, rank).contains(other) && other != first && other != second
                && other != third ==> !regroup(translator)[rank].1.holds(other),
{
    let buttons = bound_under(translator, rank);
    assert(is_lowest(buttons, first));
    lowest_is_unique(buttons, first);
    let fewer = without(buttons, Some(first));
    assert(is_lowest(fewer, second));
    lowest_is_unique(fewer, second);
    let fewest = without(fewer, Some(second));
    assert(is_lowest(fewest, third)) by {
        assert forall|other: Button| #[trigger] fewest.contains(other) implies third.spec_code()
            <= other.spec_code() by {
            assert(buttons.contains(other));
        }
    }
    lowest_is_unique(fewest, third);
}

/// Converting a rebind to a translator, back to a rebind and to a
/// translator again gives the translator of the first conversion: what the
/// first conversion keeps, the others keep too. This holds of every well
/// formed rebind, also of one in which several actions hold one button.
pub proof fn round_trip<A: Action>(rebind: Map<u64, (A, ButtonTuple)>)
    requires
        ranked(rebind),
    ensures
        flatten(regroup(flatten(rebind))) == flatten(rebind),
{
    let flat = flatten(rebind);
    let back = regroup(flat);
    let again = flatten(back);
    assert forall|button: Button| #[trigger] flat.contains_key(button) implies again.contains_key(
        button,
    ) && again[button] == flat[button] by {
        let some = choose|rank: u64| holder(rebind, rank, button);
        some_holder_is_highest(rebind, some, button);
        let rank = choose|top: u64| top_holder(rebind, top, button);
        highest_rank_wins(rebind, rank, button);
        let buttons = bound_under(flat, rank);
        assert(buttons.contains(button));
        bound_buttons_are_held(rebind, rank);
        held_buttons_are_few(rebind[rank].1, buttons);
        lowest_three_of_few(buttons, button);
        assert(back.contains_key(rank));
        assert(holder(back, rank, button));
        assert forall|other: u64| #[trigger] holder(back, other, button) implies other <= rank by {
            lowest_three_are_members(bound_under(flat, other), button);
        }
        highest_rank_wins(back, rank, button);
        finite_set_has_lowest(buttons);
        let least = lowest(buttons)->0;
        assert(buttons.contains(least));
        assert(flat[least] == rebind[rank].0) by {
            let some = choose|some: u64| holder(rebind, some, least);
            some_holder_is_highest(rebind, some, least);
            let its = choose|top: u64| top_holder(rebind, top, least);
            assert(holder(rebind, its, least));
        }
    }
    assert forall|button: Button| #[trigger] again.contains_key(button) implies flat.contains_key(
        button,
    ) by {
        let rank = choose|rank: u64| holder(back, rank, button);
        lowest_three_are_members(bound_under(flat, rank), button);
    }
    assert(again =~= flat);
}

/// The same of the views themselves: where a well formed rebind converts to
/// a first translator, that to a rebind, and that to a second translator,
/// the second translator has the bindings and the axis settings of the
/// first.
pub proof fn round_trip_of_views<A: Action>(
    rebind: InputRebind<A>,
    first: InputTranslator<A>,
    back: InputRebind<A>,
    second: InputTranslator<A>,
)
    requires
        rebind.wf(),
        first.bindings() == flatten(rebind.bindings()),
        first.mouse() == rebind.mouse(),
        back.bindings() == regroup(first.bindings()),
        back.mouse() == first.mouse(),
        second.bindings() == flatten(back.bindings()),
        second.mouse() == back.mouse(),
    ensures
        second.bindings() == first.bindings(),
        second.mouse() == first.mouse(),
{
    round_trip(rebind.bindings());
}

/// The buttons that the translator of a rebind binds to an action are
/// buttons that the rebind gives the action.
pub proof fn bound_buttons_are_held<A: Action>(rebind: Map<u64, (A, ButtonTuple)>, rank: u64)
    requires
        ranked(rebind),
    ensures
        forall|button: Button| #[trigger]
            bound_under(flatten(rebind), rank).contains(button) ==> holder(rebind, rank, button),
{
    assert forall|button: Button| #[trigger]
        bound_under(flatten(rebind), rank).contains(button) implies holder(
        rebind,
        rank,
        button,
    ) by {
        let some = choose|some: u64| holder(rebind, some, button);
        some_holder_is_highest(rebind, some, button);
        let top = choose|top: u64| top_holder(rebind, top, button);
        assert(holder(rebind, top, button));
    }
}

} // verus!
