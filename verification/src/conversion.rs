//! What the conversions between the two views of a binding set yield.
//!
//! A rebind may bind one button to several actions, and a translator may
//! bind more than three buttons to one action; neither fits the other view.
//! The functions here say what becomes of such bindings: of the actions that
//! hold one button the one of the highest rank keeps it, and of the buttons
//! of one action the three of the lowest codes stay.

use vstd::prelude::*;
use crate::action::Action;
use crate::button::{Button, ButtonTuple};
use crate::groups::{first_three, padded, slot_code};

verus! {

/// Whether every action of the rebind bindings is filed under its rank.
pub open spec fn ranked<A: Action>(rebind: Map<u64, (A, ButtonTuple)>) -> bool {
    forall|rank: u64| #[trigger] rebind.contains_key(rank) ==> rebind[rank].0.spec_rank() == rank
}

/// Whether the action of the given rank is present in the rebind bindings
/// and holds the button.
pub open spec fn holder<A: Action>(
    rebind: Map<u64, (A, ButtonTuple)>,
    rank: u64,
    button: Button,
) -> bool {
    rebind.contains_key(rank) && rebind[rank].1.holds(button)
}

/// Whether the action of the given rank holds the button and no action of a
/// higher rank does.
pub open spec fn top_holder<A: Action>(
    rebind: Map<u64, (A, ButtonTuple)>,
    rank: u64,
    button: Button,
) -> bool {
    holder(rebind, rank, button) && forall|other: u64| #[trigger]
        holder(rebind, other, button) ==> other <= rank
}

/// The translator bindings that rebind bindings convert to: every button
/// that some action holds is bound, to the action of the highest rank among
/// those that hold it.
pub open spec fn flatten<A: Action>(rebind: Map<u64, (A, ButtonTuple)>) -> Map<Button, A> {
    Map::new(
        |button: Button| exists|rank: u64| holder(rebind, rank, button),
        |button: Button| rebind[choose|rank: u64| top_holder(rebind, rank, button)].0,
    )
}

/// The buttons that the translator bindings bind to an action of the given
/// rank.
pub open spec fn bound_under<A: Action>(translator: Map<Button, A>, rank: u64) -> Set<Button> {
    Set::new(|button: Button| translator.contains_key(button) && translator[button].spec_rank() == rank)
}

/// Whether the button is in the set and no button of the set has a lower
/// code.
pub open spec fn is_lowest(buttons: Set<Button>, button: Button) -> bool {
    buttons.contains(button) && forall|other: Button| #[trigger]
        buttons.contains(other) ==> button.spec_code() <= other.spec_code()
}

/// The button of the lowest code in the set, if the set has one.
pub open spec fn lowest(buttons: Set<Button>) -> Option<Button> {
    if exists|button: Button| is_lowest(buttons, button) {
        Some(choose|button: Button| is_lowest(buttons, button))
    } else {
        None
    }
}

/// The set without the button that the slot holds.
pub open spec fn without(buttons: Set<Button>, slot: Option<Button>) -> Set<Button> {
    match slot {
        Some(button) => buttons.remove(button),
        None => buttons,
    }
}

/// The three buttons of the lowest codes in the set, in ascending order,
/// with empty slots where the set has fewer than three buttons.
pub open spec fn lowest_three(buttons: Set<Button>) -> ButtonTuple {
    let first = lowest(buttons);
    let second = lowest(without(buttons, first));
    let third = lowest(without(without(buttons, first), second));
    ButtonTuple(first, second, third)
}

/// The rebind bindings that translator bindings convert to: every action
/// that some button is bound to is present, with the three lowest of its
/// buttons in ascending order.
pub open spec fn regroup<A: Action>(translator: Map<Button, A>) -> Map<u64, (A, ButtonTuple)> {
    Map::new(
        |rank: u64| exists|button: Button| bound_under(translator, rank).contains(button),
        |rank: u64|
            {
                let buttons = bound_under(translator, rank);
                (translator[lowest(buttons)->0], lowest_three(buttons))
            },
    )
}

/// Whether the slots list the set: each slot holds a button of the set, the
/// codes ascend from slot to slot, and every button of the set is in a slot.
pub open spec fn lists(slots: Seq<Option<Button>>, buttons: Set<Button>) -> bool {
    &&& forall|i: int| 0 <= i < slots.len() ==> (#[trigger] slots[i]) is Some && buttons.contains(
        slots[i]->0)
    &&& forall|i: int, j: int|
        0 <= i < j < slots.len() ==> slot_code(#[trigger] slots[i]) < slot_code(#[trigger] slots[j])
    &&& forall|button: Button| #[trigger] buttons.contains(button) ==> slots.contains(Some(button))
}

/// The lowest button of a listed set is the one in the first slot, and the
/// other slots list the other buttons.
pub proof fn lowest_of_listed(slots: Seq<Option<Button>>, buttons: Set<Button>)
    requires
        lists(slots, buttons),
    ensures
        lowest(buttons) == (if slots.len() == 0 {
            None
        } else {
            slots[0]
        }),
        slots.len() > 0 ==> lists(slots.drop_first(), without(buttons, slots[0])),
        slots.len() == 0 ==> without(buttons, lowest(buttons)) == buttons,
{
    if slots.len() == 0 {
        assert forall|button: Button| !is_lowest(buttons, button) by {
            if buttons.contains(button) {
                assert(slots.contains(Some(button)));
            }
        }
    } else {
        let first = slots[0]->0;
        assert forall|other: Button| #[trigger] buttons.contains(other) implies first.spec_code()
            <= other.spec_code() by {
            assert(slots.contains(Some(other)));
            let at = choose|at: int| 0 <= at < slots.len() && slots[at] == Some(other);
            if at > 0 {
                assert(slot_code(slots[0]) < slot_code(slots[at]));
            }
        }
        assert(is_lowest(buttons, first));
        let chosen = choose|button: Button| is_lowest(buttons, button);
        assert(buttons.contains(chosen) && buttons.contains(first));
        Button::code_identifies(chosen, first);
        let rest = slots.drop_first();
        let fewer = without(buttons, slots[0]);
        assert forall|i: int| 0 <= i < rest.len() implies (#[trigger] rest[i]) is Some
            && fewer.contains(rest[i]->0) by {
            assert(rest[i] == slots[i + 1]);
            assert(slot_code(slots[0]) < slot_code(slots[i + 1]));
        }
        assert forall|i: int, j: int| 0 <= i < j < rest.len() implies slot_code(#[trigger] rest[i])
            < slot_code(#[trigger] rest[j]) by {
            assert(rest[i] == slots[i + 1]);
            assert(rest[j] == slots[j + 1]);
        }
        assert forall|button: Button| #[trigger] fewer.contains(button) implies rest.contains(
            Some(button),
        ) by {
            assert(buttons.contains(button));
            assert(slots.contains(Some(button)));
            let at = choose|at: int| 0 <= at < slots.len() && slots[at] == Some(button);
            assert(at > 0);
            assert(rest[at - 1] == Some(button));
        }
    }
}

/// The three lowest buttons of a listed set are those in the first three
/// slots.
pub proof fn lowest_three_of_listed(slots: Seq<Option<Button>>, buttons: Set<Button>)
    requires
        lists(slots, buttons),
    ensures
        lowest_three(buttons) == first_three(slots),
        lowest(buttons) == (if slots.len() == 0 {
            None
        } else {
            slots[0]
        }),
{
    let all = padded(slots, 3);
    lowest_of_listed(slots, buttons);
    if slots.len() == 0 {
        assert(lowest_three(buttons) == ButtonTuple(None, None, None));
    } else {
        let second = slots.drop_first();
        let fewer = without(buttons, slots[0]);
        lowest_of_listed(second, fewer);
        if second.len() == 0 {
            assert(lowest_three(buttons) == ButtonTuple(slots[0], None, None));
        } else {
            assert(second[0] == slots[1]);
            let third = second.drop_first();
            lowest_of_listed(third, without(fewer, second[0]));
            if third.len() > 0 {
                assert(third[0] == slots[2]);
            }
        }
    }
}

} // verus!
