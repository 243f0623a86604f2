//! The editable view of a binding set: from each action to its buttons.

use vstd::prelude::*;
use std::collections::HashMap;
use std::collections::hash_map::Entry;
use vstd::std_specs::iter::IteratorSpec;
use crate::action::Action;
use crate::button::{Button, ButtonTuple};
use crate::conversion::{flatten, holder, ranked, regroup, top_holder};
use crate::mouse::{MouseTranslationData, Size};
use crate::order::{ascending, pair_le, same_pairs, sort_pairs};
use crate::translator::InputTranslator;

verus! {

/// Whether the pair is the rank of an action that is present and the code of
/// a button that it holds.
pub open spec fn held<A: Action>(rebind: Map<u64, (A, ButtonTuple)>, pair: (u64, u64)) -> bool {
    rebind.contains_key(pair.0) && rebind[pair.0].1.holds_code(pair.1)
}

/// Adds the rank and the code of the button in the slot, where it holds one.
fn push_slot(pairs: &mut Vec<(u64, u64)>, rank: u64, slot: Option<Button>)
    ensures
        final(pairs)@ == (match slot {
            Some(button) => old(pairs)@.push((rank, button.spec_code())),
            None => old(pairs)@,
        }),
{
    if let Some(button) = slot {
        pairs.push((rank, button.code()));
    }
}

/// Binds actions to buttons, at most three buttons to an action, and holds
/// the axis settings. Made for editing and display; converts to and from an
/// `InputTranslator`.
#[derive(Debug, PartialEq)]
pub struct InputRebind<A: Action> {
    /// Each action that is present and its buttons, under the rank of the
    /// action.
    keymap: HashMap<u64, (A, ButtonTuple)>,
    mouse_data: MouseTranslationData,
}

impl<A: Action> InputRebind<A> {
    /// Whether the rebind is well formed: every action is filed under its
    /// rank. Every rebind that this library hands out is.
    pub open spec fn wf(&self) -> bool {
        ranked(self.bindings())
    }

    /// The bindings: under the rank of each action that is present, the
    /// action and its buttons.
    pub closed spec fn bindings(&self) -> Map<u64, (A, ButtonTuple)> {
        self.keymap@
    }

    /// The axis settings.
    pub closed spec fn mouse(&self) -> MouseTranslationData {
        self.mouse_data
    }

    /// The ranks of the actions that are present, each once, in no
    /// particular order.
    fn ranks(&self) -> (ranks: Vec<u64>)
        ensures
            ranks@.no_duplicates(),
            forall|rank: u64| ranks@.contains(rank) <==> self.bindings().contains_key(rank),
    {
        let mut ranks: Vec<u64> = Vec::new();
        for rank in it: self.keymap.keys()
            invariant
                ranks@.len() == it.index(),
                forall|i: int| 0 <= i < it.index() ==> ranks@[i] == *it.seq()[i],
        {
            ranks.push(*rank);
        }
        proof {
            broadcast use vstd::std_specs::hash::group_hash_axioms;
            let keys = IteratorSpec::remaining(&vstd::std_specs::hash::spec_keys_iter(&self.keymap));
            assert(ranks@ =~= keys.unref());
            assert forall|rank: u64| ranks@.contains(rank) <==> self.bindings().contains_key(
                rank,
            ) by {
                assert(keys.unref().to_set().contains(rank) <==> self.keymap@.dom().contains(rank));
            }
        }
        ranks
    }

    /// For every action that is present and every button that it holds, the
    /// rank of the action and the code of the button.
    fn held_pairs(&self) -> (pairs: Vec<(u64, u64)>)
        ensures
            forall|pair: (u64, u64)| pairs@.contains(pair) <==> held(self.bindings(), pair),
    {
        let ranks = self.ranks();
        let mut pairs: Vec<(u64, u64)> = Vec::new();
        let mut i: usize = 0;
        while i < ranks.len()
            invariant
                i <= ranks.len(),
                forall|rank: u64| ranks@.contains(rank) <==> self.bindings().contains_key(rank),
                forall|pair: (u64, u64)|
                    pairs@.contains(pair) <==> held(self.bindings(), pair) && ranks@.take(
                        i as int,
                    ).contains(pair.0),
            decreases ranks.len() - i,
        {
            broadcast use vstd::std_specs::hash::group_hash_axioms;
            broadcast use vstd::seq_lib::lemma_seq_contains_after_push;

            let rank = ranks[i];
            assert(ranks@.contains(rank));
            assert(ranks@.take(i as int + 1) =~= ranks@.take(i as int).push(rank));
            match self.keymap.get(&rank) {
                Some(entry) => {
                    push_slot(&mut pairs, rank, entry.1.0);
                    push_slot(&mut pairs, rank, entry.1.1);
                    push_slot(&mut pairs, rank, entry.1.2);
                },
                None => {},
            }
            i += 1;
        }
        assert(ranks@.take(ranks.len() as int) =~= ranks@);
        pairs
    }

    /// Converts the rebind into a translator. Every button that some action
    /// holds is bound; a button that several actions hold is bound to the
    /// one of the highest rank among them. The axis settings are carried
    /// over.
    pub fn into_translator(self) -> (translator: InputTranslator<A>)
        ensures
            translator.bindings() == flatten(self.bindings()),
            translator.mouse() == self.mouse(),
    {
        let pairs = self.held_pairs();
        let sorted = sort_pairs(pairs);
        let mut translator = InputTranslator::with_mouse_data(self.mouse_data);
        let ghost rebind = self.bindings();
        let ghost last: Map<Button, int> = Map::empty();
        proof {
            same_pairs(sorted@, pairs@);
        }
        let mut i: usize = 0;
        while i < sorted.len()
            invariant
                i <= sorted.len(),
                rebind == self.bindings(),
                ascending(sorted@),
                forall|pair: (u64, u64)| sorted@.contains(pair) <==> held(rebind, pair),
                translator.mouse() == self.mouse(),
                forall|button: Button|
                    translator.bindings().contains_key(button) <==> #[trigger] last.contains_key(
                        button,
                    ),
                forall|button: Button| #[trigger]
                    last.contains_key(button) ==> {
                        &&& 0 <= last[button] < i
                        &&& sorted@[last[button]].1 == button.spec_code()
                        &&& rebind.contains_key(sorted@[last[button]].0)
                        &&& rebind[sorted@[last[button]].0].1.holds(button)
                        &&& translator.bindings()[button] == rebind[sorted@[last[button]].0].0
                    },
                forall|j: int, button: Button|
                    0 <= j < i && (#[trigger] sorted@[j]).1 == #[trigger] button.spec_code()
                        ==> last.contains_key(button) && j <= last[button],
            decreases sorted.len() - i,
        {
            broadcast use vstd::std_specs::hash::group_hash_axioms;

            let (rank, code) = sorted[i];
            assert(sorted@.contains(sorted@[i as int]));
            assert(held(rebind, sorted@[i as int]));
            match self.keymap.get(&rank) {
                Some(entry) => {
                    match entry.1.find_code(code) {
                        Some(button) => {
                            translator.bind(button, entry.0);
                            proof {
                                last = last.insert(button, i as int);
                                assert forall|j: int, other: Button|
                                    0 <= j < i + 1 && (#[trigger] sorted@[j]).1
                                        == #[trigger] other.spec_code() implies last.contains_key(
                                    other,
                                ) && j <= last[other] by {
                                    if other.spec_code() == button.spec_code() {
                                        Button::code_identifies(other, button);
                                    }
                                }
                            }
                        },
                        None => {},
                    }
                },
                None => {},
            }
            i += 1;
        }
        proof {
            let bound = translator.bindings();
            let wanted = flatten(rebind);
            assert forall|button: Button| bound.contains_key(button) <==> wanted.contains_key(
                button,
            ) by {
                if bound.contains_key(button) {
                    assert(last.contains_key(button));
                    assert(holder(rebind, sorted@[last[button]].0, button));
                }
                if wanted.contains_key(button) {
                    let rank = choose|rank: u64| holder(rebind, rank, button);
                    let pair = (rank, button.spec_code());
                    assert(held(rebind, pair));
                    assert(sorted@.contains(pair));
                    let j = choose|j: int| 0 <= j < sorted@.len() && sorted@[j] == pair;
                    assert(sorted@[j].1 == button.spec_code());
                    assert(last.contains_key(button));
                }
            }
            assert forall|button: Button| bound.contains_key(button) implies bound[button]
                == wanted[button] by {
                assert(last.contains_key(button));
                let at = last[button];
                let rank = sorted@[at].0;
                assert forall|other: u64| #[trigger] holder(rebind, other, button) implies other
                    <= rank by {
                    let pair = (other, button.spec_code());
                    assert(held(rebind, pair));
                    assert(sorted@.contains(pair));
                    let j = choose|j: int| 0 <= j < sorted@.len() && sorted@[j] == pair;
                    assert(sorted@[j].1 == button.spec_code());
                    assert(j <= at);
                    if j < at {
                        assert(pair_le(sorted@[j], sorted@[at]));
                    }
                }
                assert(top_holder(rebind, rank, button));
                let chosen = choose|rank: u64| top_holder(rebind, rank, button);
                assert(holder(rebind, chosen, button));
                assert(chosen <= rank && rank <= chosen);
            }
            assert(bound =~= wanted);
        }
        translator
    }

    /// A rebind with no actions that inverts no axis.
    pub fn new(size: Size) -> (rebind: Self)
        ensures
            rebind.wf(),
            rebind.bindings() == Map::<u64, (A, ButtonTuple)>::empty(),
            rebind.mouse() == MouseTranslationData::plain(size),
    {
        InputRebind { keymap: HashMap::new(), mouse_data: MouseTranslationData::new(size) }
    }

    /// A rebind with no actions and the given axis settings.
    pub(crate) fn with_mouse_data(data: MouseTranslationData) -> (rebind: Self)
        ensures
            rebind.wf(),
            rebind.bindings() == Map::<u64, (A, ButtonTuple)>::empty(),
            rebind.mouse() == data,
    {
        InputRebind { keymap: HashMap::new(), mouse_data: data }
    }

    /// Inserts an action with no buttons. Where the action was present, its
    /// buttons are taken away and returned.
    pub fn insert_action(&mut self, action: A) -> (previous: Option<ButtonTuple>)
        ensures
            old(self).wf() ==> final(self).wf(),
            final(self).bindings() == old(self).bindings().insert(
                action.spec_rank(),
                (action, ButtonTuple(None, None, None)),
            ),
            final(self).mouse() == old(self).mouse(),
            previous == (if old(self).bindings().contains_key(action.spec_rank()) {
                Some(old(self).bindings()[action.spec_rank()].1)
            } else {
                None
            }),
    {
        self.insert_action_with_buttons(action, ButtonTuple::new())
    }

    /// Inserts an action with the given buttons. Where the action was
    /// present, its former buttons are returned.
    ///
    /// The buttons are taken as they are. Another action may hold one of
    /// them too; the conversion to a translator then gives the button to
    /// the action of the higher rank. That no button occupies two slots of
    /// the tuple is for the caller to see to: a tuple made by
    /// `ButtonTuple::new` and filled by `insert_inplace` is so, one written
    /// by hand is as its writer made it, and nothing is checked here.
    pub fn insert_action_with_buttons(&mut self, action: A, buttons: ButtonTuple) -> (previous:
        Option<ButtonTuple>)
        ensures
            old(self).wf() ==> final(self).wf(),
            final(self).bindings() == old(self).bindings().insert(
                action.spec_rank(),
                (action, buttons),
            ),
            final(self).mouse() == old(self).mouse(),
            previous == (if old(self).bindings().contains_key(action.spec_rank()) {
                Some(old(self).bindings()[action.spec_rank()].1)
            } else {
                None
            }),
    {
        match self.keymap.insert(action.rank(), (action, buttons)) {
            Some(entry) => Some(entry.1),
            None => None,
        }
    }

    /// The buttons of an action, or `None` where the action is not present.
    pub fn get_bindings(&self, action: &A) -> (buttons: Option<&ButtonTuple>)
        ensures
            match buttons {
                Some(found) => self.bindings().contains_key(action.spec_rank()) && *found
                    == self.bindings()[action.spec_rank()].1,
                None => !self.bindings().contains_key(action.spec_rank()),
            },
    {
        match self.keymap.get(&action.rank()) {
            Some(entry) => Some(&entry.1),
            None => None,
        }
    }

    /// The buttons of an action, to be changed in place, or `None` where the
    /// action is not present. Whatever is written there becomes the buttons
    /// of the action; nothing else changes.
    pub fn get_bindings_mut(&mut self, action: &mut A) -> (buttons: Option<&mut ButtonTuple>)
        ensures
            *final(action) == *old(action),
            final(self).mouse() == old(self).mouse(),
            old(self).wf() ==> final(self).wf(),
            match buttons {
                Some(found) => {
                    let rank = old(action).spec_rank();
                    &&& old(self).bindings().contains_key(rank)
                    &&& *found == old(self).bindings()[rank].1
                    &&& final(self).bindings() == old(self).bindings().insert(
                        rank,
                        (old(self).bindings()[rank].0, *final(found)),
                    )
                },
                None => {
                    &&& !old(self).bindings().contains_key(old(action).spec_rank())
                    &&& final(self).bindings() == old(self).bindings()
                },
            },
    {
        match self.keymap.entry(action.rank()) {
            Entry::Occupied(occupied) => Some(&mut occupied.into_mut().1),
            Entry::Vacant(_) => None,
        }
    }

    /// Whether scrolling along the x axis is inverted.
    pub fn get_x_scroll_inverted(&self) -> (inverted: &bool)
        ensures
            *inverted == self.mouse().x_axis_scroll_inverted,
    {
        &self.mouse_data.x_axis_scroll_inverted
    }

    /// Whether scrolling along the x axis is inverted, to be changed in place. Nothing else
    /// changes.
    pub fn get_x_scroll_inverted_mut(&mut self) -> (inverted: &mut bool)
        ensures
            *inverted == old(self).mouse().x_axis_scroll_inverted,
            final(self).bindings() == old(self).bindings(),
            final(self).mouse() == (MouseTranslationData {
                x_axis_scroll_inverted: *final(inverted),
                ..old(self).mouse()
            }),
    {
        &mut self.mouse_data.x_axis_scroll_inverted
    }

    /// Whether scrolling along the y axis is inverted.
    pub fn get_y_scroll_inverted(&self) -> (inverted: &bool)
        ensures
            *inverted == self.mouse().y_axis_scroll_inverted,
    {
        &self.mouse_data.y_axis_scroll_inverted
    }

    /// Whether scrolling along the y axis is inverted, to be changed in place. Nothing else
    /// changes.
    pub fn get_y_scroll_inverted_mut(&mut self) -> (inverted: &mut bool)
        ensures
            *inverted == old(self).mouse().y_axis_scroll_inverted,
            final(self).bindings() == old(self).bindings(),
            final(self).mouse() == (MouseTranslationData {
                y_axis_scroll_inverted: *final(inverted),
                ..old(self).mouse()
            }),
    {
        &mut self.mouse_data.y_axis_scroll_inverted
    }

    /// Whether positions of the cursor along the x axis is inverted.
    pub fn get_x_motion_inverted(&self) -> (inverted: &bool)
        ensures
            *inverted == self.mouse().x_axis_motion_inverted,
    {
        &self.mouse_data.x_axis_motion_inverted
    }

    /// Whether positions of the cursor along the x axis is inverted, to be changed in place. Nothing else
    /// changes.
    pub fn get_x_motion_inverted_mut(&mut self) -> (inverted: &mut bool)
        ensures
            *inverted == old(self).mouse().x_axis_motion_inverted,
            final(self).bindings() == old(self).bindings(),
            final(self).mouse() == (MouseTranslationData {
                x_axis_motion_inverted: *final(inverted),
                ..old(self).mouse()
            }),
    {
        &mut self.mouse_data.x_axis_motion_inverted
    }

    /// Whether positions of the cursor along the y axis is inverted.
    pub fn get_y_motion_inverted(&self) -> (inverted: &bool)
        ensures
            *inverted == self.mouse().y_axis_motion_inverted,
    {
        &self.mouse_data.y_axis_motion_inverted
    }

    /// Whether positions of the cursor along the y axis is inverted, to be changed in place. Nothing else
    /// changes.
    pub fn get_y_motion_inverted_mut(&mut self) -> (inverted: &mut bool)
        ensures
            *inverted == old(self).mouse().y_axis_motion_inverted,
            final(self).bindings() == old(self).bindings(),
            final(self).mouse() == (MouseTranslationData {
                y_axis_motion_inverted: *final(inverted),
                ..old(self).mouse()
            }),
    {
        &mut self.mouse_data.y_axis_motion_inverted
    }

    /// The viewport size that positions of the cursor are reflected in.
    pub fn get_viewport_size(&self) -> (size: &Size)
        ensures
            *size == self.mouse().viewport_size,
    {
        &self.mouse_data.viewport_size
    }

    /// The viewport size that positions of the cursor are reflected in, to
    /// be changed in place. Any size is taken, an empty one too. Nothing
    /// else changes.
    pub fn get_viewport_size_mut(&mut self) -> (size: &mut Size)
        ensures
            *size == old(self).mouse().viewport_size,
            final(self).bindings() == old(self).bindings(),
            final(self).mouse() == (MouseTranslationData {
                viewport_size: *final(size),
                ..old(self).mouse()
            }),
    {
        &mut self.mouse_data.viewport_size
    }
}

impl<A: Action> Clone for InputRebind<A> {
    fn clone(&self) -> (copy: Self)
        ensures
            copy.bindings() == self.bindings(),
            copy.mouse() == self.mouse(),
    {
        InputRebind { keymap: self.keymap.clone(), mouse_data: self.mouse_data }
    }
}

impl<A: Action> Default for InputRebind<A> {
    /// A rebind with no actions that inverts no axis, for a viewport of 800
    /// by 600.
    fn default() -> (rebind: Self)
        ensures
            rebind.wf(),
            rebind.bindings() == Map::<u64, (A, ButtonTuple)>::empty(),
            rebind.mouse() == MouseTranslationData::plain(Size { width: 800, height: 600 }),
    {
        InputRebind::new(Size { width: 800, height: 600 })
    }
}

impl<A: Action> From<InputTranslator<A>> for InputRebind<A> {
    /// Converts the translator into a rebind, as
    /// `InputTranslator::into_rebind` does.
    fn from(translator: InputTranslator<A>) -> (rebind: Self)
        ensures
            rebind.wf(),
            rebind.bindings() == regroup(translator.bindings()),
            rebind.mouse() == translator.mouse(),
    {
        translator.into_rebind()
    }
}

impl<A: Action> vstd::std_specs::convert::FromSpecImpl<InputTranslator<A>> for InputRebind<A> {
    open spec fn obeys_from_spec() -> bool {
        false
    }

    open spec fn from_spec(translator: InputTranslator<A>) -> Self {
        arbitrary()
    }
}

} // verus!
