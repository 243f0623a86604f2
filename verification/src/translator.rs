//! The flat view of a binding set: from each button to its action.

use vstd::prelude::*;
use std::collections::HashMap;
use vstd::std_specs::iter::IteratorSpec;
use crate::action::Action;
use crate::button::{Button, ButtonTuple};
use crate::conversion::{bound_under, flatten, lists, lowest_three_of_listed, regroup};
use crate::event::{Input, Translated};
use crate::groups::{
    coalesce_groups, coalesced, coalescing_keeps_groups_filled, coalescing_keeps_leader,
    coalescing_keeps_slots, coalescing_separates_ranks, first_three, gathered,
    gathered_for_missing_rank, gathered_for_single_group, gathered_from_singles, groups_view,
    leader, leader_of_single_group, pad_slots, ranks_ascend, ranks_climb, single_and_sorted,
};
use crate::mouse::{MouseTranslationData, MouseTranslator, Size, Viewport};
use crate::order::{ascending, pair_le, same_pairs, sort_pairs};
use crate::rebind::InputRebind;

verus! {

/// Translates input events into the actions that their buttons are bound
/// to. Each button is bound to at most one action, and a lookup takes
/// constant time.
#[derive(Debug, PartialEq)]
pub struct InputTranslator<A: Action> {
    /// Each bound button and its action, under the code of the button.
    keymap: HashMap<u64, (Button, A)>,
    mouse_translator: MouseTranslator,
}

impl<A: Action> InputTranslator<A> {
    /// The bindings: the action of each bound button. A button is bound
    /// where it is filed, with its action, under its code.
    pub closed spec fn bindings(&self) -> Map<Button, A> {
        Map::new(
            |b: Button|
                self.keymap@.contains_key(b.spec_code()) && self.keymap@[b.spec_code()].0 == b,
            |b: Button| self.keymap@[b.spec_code()].1,
        )
    }

    /// The axis settings.
    pub closed spec fn mouse(&self) -> MouseTranslationData {
        self.mouse_translator.data
    }

    /// What an event translates to under the given bindings and axis
    /// settings: a press or a release of a bound button gives its action, a
    /// motion always gives the change that the axis settings ask for, and
    /// nothing else gives anything.
    pub open spec fn translation(
        bindings: Map<Button, A>,
        mouse: MouseTranslationData,
        input: Input,
    ) -> Option<Translated<A>> {
        match input {
            Input::Press(button) => if bindings.contains_key(button) {
                Some(Translated::Press(bindings[button]))
            } else {
                None
            },
            Input::Release(button) => if bindings.contains_key(button) {
                Some(Translated::Release(bindings[button]))
            } else {
                None
            },
            Input::Move(motion) => Some(Translated::Move(mouse.change_for(motion))),
            Input::Other => None,
        }
    }

    /// A translator with no bindings that inverts no axis.
    pub fn new(size: Size) -> (translator: Self)
        ensures
            translator.bindings() == Map::<Button, A>::empty(),
            translator.mouse() == MouseTranslationData::plain(size),
    {
        let translator = InputTranslator {
            keymap: HashMap::new(),
            mouse_translator: MouseTranslator::new(size),
        };
        assert(translator.bindings() =~= Map::<Button, A>::empty());
        translator
    }

    /// A translator with no bindings and the given axis settings.
    pub(crate) fn with_mouse_data(data: MouseTranslationData) -> (translator: Self)
        ensures
            translator.bindings() == Map::<Button, A>::empty(),
            translator.mouse() == data,
    {
        let translator = InputTranslator {
            keymap: HashMap::new(),
            mouse_translator: MouseTranslator { data },
        };
        assert(translator.bindings() =~= Map::<Button, A>::empty());
        translator
    }

    /// Binds the button to the action, in place of the action it was bound
    /// to before.
    pub(crate) fn bind(&mut self, button: Button, action: A)
        ensures
            final(self).bindings() == old(self).bindings().insert(button, action),
            final(self).mouse() == old(self).mouse(),
    {
        self.keymap.insert(button.code(), (button, action));
        proof {
            assert forall|b: Button| b != button implies b.spec_code() != button.spec_code() by {
                if b.spec_code() == button.spec_code() {
                    Button::code_identifies(b, button);
                }
            }
            assert(self.bindings() =~= old(self).bindings().insert(button, action));
        }
    }

    /// The action that the button is bound to, if any.
    pub(crate) fn action_of(&self, button: Button) -> (action: Option<A>)
        ensures
            action == (if self.bindings().contains_key(button) {
                Some(self.bindings()[button])
            } else {
                None
            }),
    {
        match self.keymap.get(&button.code()) {
            Some(entry) => if entry.0 == button {
                Some(entry.1)
            } else {
                None
            },
            None => None,
        }
    }

    /// Whether the pair is the rank of an action and the code of a button
    /// bound to it.
    closed spec fn filed(&self, pair: (u64, u64)) -> bool {
        &&& self.keymap@.contains_key(pair.1)
        &&& self.keymap@[pair.1].0.spec_code() == pair.1
        &&& self.keymap@[pair.1].1.spec_rank() == pair.0
    }

    /// What the entry filed under the code is as a group: its action, and
    /// its button in one slot.
    closed spec fn single(&self, code: u64) -> (A, Seq<Option<Button>>) {
        (self.keymap@[code].1, seq![Some(self.keymap@[code].0)])
    }

    /// The button and the action that are filed under the code.
    fn entry(&self, code: u64) -> (entry: (Button, A))
        requires
            self.keymap@.contains_key(code),
        ensures
            entry == self.keymap@[code],
    {
        broadcast use vstd::std_specs::hash::group_hash_axioms;

        *self.keymap.get(&code).unwrap()
    }

    /// The codes of the bound buttons, each once, in no particular order.
    fn codes(&self) -> (codes: Vec<u64>)
        ensures
            codes@.no_duplicates(),
            forall|code: u64| codes@.contains(code) <==> self.keymap@.contains_key(code),
    {
        let mut codes: Vec<u64> = Vec::new();
        for code in it: self.keymap.keys()
            invariant
                codes@.len() == it.index(),
                forall|i: int| 0 <= i < it.index() ==> codes@[i] == *it.seq()[i],
        {
            codes.push(*code);
        }
        proof {
            broadcast use vstd::std_specs::hash::group_hash_axioms;
            let keys = IteratorSpec::remaining(&vstd::std_specs::hash::spec_keys_iter(&self.keymap));
            assert(codes@ =~= keys.unref());
            assert forall|code: u64| codes@.contains(code) <==> self.keymap@.contains_key(
                code,
            ) by {
                assert(keys.unref().to_set().contains(code) <==> self.keymap@.dom().contains(code));
            }
        }
        codes
    }

    /// For every bound button, the rank of its action and its code.
    fn ranked_codes(&self) -> (pairs: Vec<(u64, u64)>)
        ensures
            pairs@.no_duplicates(),
            forall|pair: (u64, u64)| pairs@.contains(pair) <==> self.filed(pair),
    {
        let codes = self.codes();
        let mut pairs: Vec<(u64, u64)> = Vec::new();
        let ghost mut origin: Seq<int> = Seq::empty();
        let mut i: usize = 0;
        while i < codes.len()
            invariant
                i <= codes.len(),
                codes@.no_duplicates(),
                origin.len() == pairs@.len(),
                forall|code: u64| codes@.contains(code) <==> self.keymap@.contains_key(code),
                forall|j: int|
                    0 <= j < pairs@.len() ==> 0 <= #[trigger] origin[j] < i && pairs@[j].1
                        == codes@[origin[j]] && self.filed(pairs@[j]),
                forall|j: int, k: int| 0 <= j < k < origin.len() ==> origin[j] < origin[k],
                forall|pair: (u64, u64), j: int|
                    0 <= j < i && self.filed(pair) && pair.1 == #[trigger] codes@[j]
                        ==> #[trigger] pairs@.contains(pair),
            decreases codes.len() - i,
        {
            broadcast use vstd::std_specs::hash::group_hash_axioms;
            broadcast use vstd::seq_lib::lemma_seq_contains_after_push;

            let code = codes[i];
            if let Some(entry) = self.keymap.get(&code) {
                if entry.0.code() == code {
                    pairs.push((entry.1.rank(), code));
                    proof {
                        origin = origin.push(i as int);
                    }
                }
            }
            i += 1;
        }
        proof {
            assert forall|pair: (u64, u64)| self.filed(pair) implies pairs@.contains(pair) by {
                assert(codes@.contains(pair.1));
                let j = choose|j: int| 0 <= j < codes@.len() && codes@[j] == pair.1;
                assert(codes@[j] == pair.1);
            }
            assert forall|pair: (u64, u64)| pairs@.contains(pair) implies self.filed(pair) by {
                let j = choose|j: int| 0 <= j < pairs@.len() && pairs@[j] == pair;
                assert(0 <= origin[j]);
            }
            assert forall|j: int, k: int| 0 <= j < k < pairs@.len() implies pairs@[j]
                != pairs@[k] by {
                assert(origin[j] < origin[k]);
            }
        }
        pairs
    }

    /// One group for each pair, in the order of the pairs: the action and
    /// the button that are filed under the code of the pair.
    fn singles(&self, pairs: &Vec<(u64, u64)>) -> (groups: Vec<(A, Vec<Option<Button>>)>)
        requires
            forall|i: int| 0 <= i < pairs@.len() ==> self.filed(#[trigger] pairs@[i]),
        ensures
            groups@.len() == pairs@.len(),
            forall|i: int|
                0 <= i < pairs@.len() ==> (#[trigger] groups_view(groups@)[i]) == self.single(
                    pairs@[i].1,
                ),
    {
        let mut groups: Vec<(A, Vec<Option<Button>>)> = Vec::new();
        let mut i: usize = 0;
        while i < pairs.len()
            invariant
                i <= pairs.len(),
                groups@.len() == i,
                forall|j: int| 0 <= j < pairs@.len() ==> self.filed(#[trigger] pairs@[j]),
                forall|j: int|
                    0 <= j < i ==> (#[trigger] groups@[j]).0 == self.keymap@[pairs@[j].1].1
                        && groups@[j].1@ == seq![Some(self.keymap@[pairs@[j].1].0)],
            decreases pairs.len() - i,
        {
            broadcast use vstd::std_specs::hash::group_hash_axioms;

            let code = pairs[i].1;
            assert(self.filed(pairs@[i as int]));
            let entry = self.entry(code);
            let mut slots: Vec<Option<Button>> = Vec::new();
            slots.push(Some(entry.0));
            assert(slots@ =~= seq![Some(entry.0)]);
            groups.push((entry.1, slots));
            i += 1;
        }
        groups
    }

    /// What joining the groups of the bound buttons, taken in ascending
    /// order, yields for a rank: a group where some button is bound to an
    /// action of that rank, and then the group that the rebind bindings
    /// ask for.
    proof fn joined_groups_regroup(
        &self,
        sorted: Seq<(u64, u64)>,
        singles: Seq<(A, Seq<Option<Button>>)>,
        merged: Seq<(A, Seq<Option<Button>>)>,
        rank: u64,
    )
        requires
            ascending(sorted),
            sorted.no_duplicates(),
            forall|pair: (u64, u64)| sorted.contains(pair) <==> self.filed(pair),
            singles.len() == sorted.len(),
            forall|i: int| 0 <= i < sorted.len() ==> #[trigger] singles[i] == self.single(sorted[i].1),
            merged == coalesced(singles),
        ensures
            ranks_climb(merged),
            regroup(self.bindings()).contains_key(rank) <==> exists|j: int|
                0 <= j < merged.len() && (#[trigger] merged[j]).0.spec_rank() == rank,
            forall|j: int|
                0 <= j < merged.len() && (#[trigger] merged[j]).0.spec_rank() == rank ==> regroup(
                    self.bindings(),
                )[rank] == (merged[j].0, first_three(merged[j].1)),
    {
        let bound = self.bindings();
        let buttons = bound_under(bound, rank);
        let slots = gathered(singles, rank);
        assert forall|i: int| 0 <= i < sorted.len() implies self.filed(#[trigger] sorted[i])
            && singles[i].0.spec_rank() == sorted[i].0 && singles[i].1.len() == 1 && singles[i].1[0]
            == Some(self.keymap@[sorted[i].1].0) && crate::groups::slot_code(singles[i].1[0]) == sorted[i].1 by {
            assert(sorted.contains(sorted[i]));
        }
        assert forall|i: int, j: int|
            0 <= i < j < singles.len() && (#[trigger] singles[i]).0.spec_rank() == (
            #[trigger] singles[j]).0.spec_rank() implies crate::groups::slot_code(singles[i].1[0])
            < crate::groups::slot_code(singles[j].1[0]) by {
            assert(self.filed(sorted[i]) && self.filed(sorted[j]));
            assert(pair_le(sorted[i], sorted[j]));
            assert(sorted[i] != sorted[j]);
        }
        assert forall|i: int, j: int| 0 <= i < j < singles.len() implies (
        #[trigger] singles[i]).0.spec_rank() <= (#[trigger] singles[j]).0.spec_rank() by {
            assert(self.filed(sorted[i]) && self.filed(sorted[j]));
            assert(pair_le(sorted[i], sorted[j]));
        }
        assert(single_and_sorted(singles)) by {
            assert forall|i: int| 0 <= i < singles.len() implies (#[trigger] singles[i]).1.len()
                == 1 && singles[i].1[0] is Some by {
                assert(self.filed(sorted[i]));
            }
        }
        assert(ranks_ascend(singles));
        gathered_from_singles(singles, rank);
        if singles.len() > 0 {
            let first = singles[0];
            let rest = singles.drop_first();
            assert(seq![first] + rest =~= singles);
            assert forall|i: int| 0 <= i < rest.len() implies (#[trigger] rest[i]).1.len() > 0 by {
                assert(rest[i] == singles[i + 1]);
            }
            coalescing_separates_ranks(first, rest);
            coalescing_keeps_groups_filled(first, rest);
            coalescing_keeps_slots(first, rest, rank);
            coalescing_keeps_leader(first, rest, rank);
        }
        assert(gathered(merged, rank) == slots);
        assert(leader(merged, rank) == leader(singles, rank));
        assert(lists(slots, buttons)) by {
            assert forall|p: int| 0 <= p < slots.len() implies (#[trigger] slots[p]) is Some
                && buttons.contains(slots[p]->0) by {
                let i = choose|i: int|
                    0 <= i < singles.len() && (#[trigger] singles[i]).0.spec_rank() == rank
                        && singles[i].1[0] == slots[p];
                assert(self.filed(sorted[i]));
            }
            assert forall|button: Button| #[trigger] buttons.contains(button) implies slots.contains(
                Some(button),
            ) by {
                let pair = (rank, button.spec_code());
                assert(self.filed(pair));
                assert(sorted.contains(pair));
                let i = choose|i: int| 0 <= i < sorted.len() && sorted[i] == pair;
                assert(self.filed(sorted[i]));
                Button::code_identifies(self.keymap@[sorted[i].1].0, button);
                assert(singles[i].0.spec_rank() == rank);
            }
        }
        lowest_three_of_listed(slots, buttons);
        if slots.len() > 0 {
            assert(buttons.contains(slots[0]->0));
        }
        assert(regroup(bound).contains_key(rank) <==> slots.len() > 0) by {
            if regroup(bound).contains_key(rank) {
                let button = choose|button: Button| buttons.contains(button);
                assert(slots.contains(Some(button)));
            }
        }
        assert forall|j: int|
            0 <= j < merged.len() && (#[trigger] merged[j]).0.spec_rank() == rank implies slots.len()
            > 0 && regroup(bound)[rank] == (merged[j].0, first_three(merged[j].1)) by {
            gathered_for_single_group(merged, j);
            leader_of_single_group(merged, j);
            let i = choose|i: int|
                0 <= i < singles.len() && (#[trigger] singles[i]).0.spec_rank() == rank
                    && singles[i].1[0] == slots[0] && leader(singles, rank) == Some(singles[i].0);
            assert(self.filed(sorted[i]));
        }
        if slots.len() > 0 && !(exists|j: int|
            0 <= j < merged.len() && (#[trigger] merged[j]).0.spec_rank() == rank) {
            gathered_for_missing_rank(merged, rank);
        }
    }

    /// Converts the translator into a rebind. Every action that some button
    /// is bound to is present. Of the buttons bound to it the three of the
    /// lowest codes are its buttons, in ascending order, and any others are
    /// dropped; where there are fewer than three, the slots behind them are
    /// empty. The axis settings are carried over.
    pub fn into_rebind(self) -> (rebind: InputRebind<A>)
        ensures
            rebind.wf(),
            rebind.bindings() == regroup(self.bindings()),
            rebind.mouse() == self.mouse(),
    {
        let pairs = self.ranked_codes();
        let sorted = sort_pairs(pairs);
        proof {
            same_pairs(sorted@, pairs@);
            assert forall|i: int| 0 <= i < sorted@.len() implies self.filed(
                #[trigger] sorted@[i],
            ) by {
                assert(sorted@.contains(sorted@[i]));
            }
        }
        let singles = self.singles(&sorted);
        let ghost single_groups = groups_view(singles@);
        let groups = coalesce_groups(singles);
        let ghost merged = groups_view(groups@);
        let mut rebind = InputRebind::with_mouse_data(self.mouse_translator.data);
        proof {
            self.joined_groups_regroup(sorted@, single_groups, merged, 0);
        }
        let mut g: usize = 0;
        while g < groups.len()
            invariant
                g <= groups.len(),
                merged == groups_view(groups@),
                ranks_climb(merged),
                rebind.wf(),
                rebind.mouse() == self.mouse(),
                forall|rank: u64|
                    rebind.bindings().contains_key(rank) <==> exists|j: int|
                        0 <= j < g && (#[trigger] merged[j]).0.spec_rank() == rank,
                forall|j: int|
                    0 <= j < g ==> rebind.bindings()[(#[trigger] merged[j]).0.spec_rank()] == (
                        merged[j].0,
                        first_three(merged[j].1),
                    ),
            decreases groups.len() - g,
        {
            let group = &groups[g];
            assert(merged[g as int] == (group.0, group.1@));
            let all = pad_slots(&group.1, 3);
            let buttons = ButtonTuple(all[0], all[1], all[2]);
            let ghost before = rebind.bindings();
            rebind.insert_action_with_buttons(group.0, buttons);
            proof {
                let rank = group.0.spec_rank();
                assert forall|other: u64|
                    rebind.bindings().contains_key(other) <==> exists|j: int|
                        0 <= j < g + 1 && (#[trigger] merged[j]).0.spec_rank() == other by {
                    if other == rank {
                        assert(merged[g as int].0.spec_rank() == other);
                    } else if before.contains_key(other) {
                        let j = choose|j: int|
                            0 <= j < g && (#[trigger] merged[j]).0.spec_rank() == other;
                        assert(0 <= j < g + 1 && merged[j].0.spec_rank() == other);
                    }
                }
                assert forall|j: int| 0 <= j < g + 1 implies rebind.bindings()[(
                #[trigger] merged[j]).0.spec_rank()] == (merged[j].0, first_three(merged[j].1)) by {
                    if j < g {
                        assert(merged[j].0.spec_rank() < merged[g as int].0.spec_rank());
                    }
                }
            }
            g += 1;
        }
        proof {
            let wanted = regroup(self.bindings());
            assert forall|rank: u64| rebind.bindings().contains_key(rank) <==> wanted.contains_key(
                rank,
            ) by {
                self.joined_groups_regroup(sorted@, single_groups, merged, rank);
            }
            assert forall|rank: u64| rebind.bindings().contains_key(rank) implies rebind.bindings()[rank]
                == wanted[rank] by {
                self.joined_groups_regroup(sorted@, single_groups, merged, rank);
                let j = choose|j: int|
                    0 <= j < merged.len() && (#[trigger] merged[j]).0.spec_rank() == rank;
                assert(rebind.bindings()[merged[j].0.spec_rank()] == (
                    merged[j].0,
                    first_three(merged[j].1),
                ));
            }
            assert(rebind.bindings() =~= wanted);
        }
        rebind
    }

    /// Translates an event. Returns `None` where no action is bound to the
    /// button of the event, and for an event that is neither of a button nor
    /// a motion.
    pub fn translate(&self, input: &Input) -> (translated: Option<Translated<A>>)
        ensures
            translated == Self::translation(self.bindings(), self.mouse(), *input),
    {
        match *input {
            Input::Press(button) => match self.action_of(button) {
                Some(act) => Some(Translated::Press(act)),
                None => None,
            },
            Input::Release(button) => match self.action_of(button) {
                Some(act) => Some(Translated::Release(act)),
                None => None,
            },
            Input::Move(motion) => Some(Translated::Move(self.mouse_translator.translate(motion))),
            Input::Other => None,
        }
    }

    /// Sets the viewport size that positions of the cursor are reflected in.
    pub fn set_size(&mut self, size: Size)
        ensures
            final(self).bindings() == old(self).bindings(),
            final(self).mouse() == (MouseTranslationData { viewport_size: size, ..old(self).mouse() }),
    {
        self.mouse_translator.data.viewport_size = size;
    }

    /// Sets the viewport size to the size that the viewport draws to.
    pub fn set_size_from_viewport(&mut self, vp: Viewport)
        ensures
            final(self).bindings() == old(self).bindings(),
            final(self).mouse() == (MouseTranslationData {
                viewport_size: Size { width: vp.draw_size[0], height: vp.draw_size[1] },
                ..old(self).mouse()
            }),
    {
        self.set_size(Size { width: vp.draw_size[0], height: vp.draw_size[1] });
    }
}

impl<A: Action> Clone for InputTranslator<A> {
    fn clone(&self) -> (copy: Self)
        ensures
            copy.bindings() == self.bindings(),
            copy.mouse() == self.mouse(),
    {
        let copy = InputTranslator {
            keymap: self.keymap.clone(),
            mouse_translator: self.mouse_translator,
        };
        assert(copy.bindings() =~= self.bindings());
        copy
    }
}

impl<A: Action> From<InputRebind<A>> for InputTranslator<A> {
    /// Converts the rebind into a translator, as `InputRebind::into_translator`
    /// does.
    fn from(rebind: InputRebind<A>) -> (translator: Self)
        ensures
            translator.bindings() == flatten(rebind.bindings()),
            translator.mouse() == rebind.mouse(),
    {
        rebind.into_translator()
    }
}

impl<A: Action> vstd::std_specs::convert::FromSpecImpl<InputRebind<A>> for InputTranslator<A> {
    open spec fn obeys_from_spec() -> bool {
        false
    }

    open spec fn from_spec(rebind: InputRebind<A>) -> Self {
        arbitrary()
    }
}

} // verus!
