//! Physical buttons, and the three slots that hold the buttons of one action.

use vstd::prelude::*;

verus! {

/// A physical input source: a key, a mouse button, a controller button or a
/// position of a controller hat. The numbers are those the event source gives.
#[derive(Clone, Copy, Debug, PartialEq, Eq, PartialOrd, Ord, Hash, Structural)]
pub enum Button {
    /// A keyboard key, by its key code.
    Keyboard(u32),
    /// A mouse button, by its number.
    Mouse(u32),
    /// A button of the controller `id`.
    Controller { id: u32, button: u8 },
    /// The hat `which` of the controller `id`, in the position `state`.
    Hat { id: u32, state: u8, which: u8 },
}

impl Button {
    /// The place of the button in the total order of buttons: keys come
    /// first, then mouse buttons, controller buttons and hats, each kind in
    /// the order of its fields.
    pub open spec fn spec_code(self) -> u64 {
        match self {
            Button::Keyboard(key) => key as u64,
            Button::Mouse(number) => (0x1_0000_0000_0000 + number) as u64,
            Button::Controller { id, button } => (0x2_0000_0000_0000 + id * 0x1_0000 + button
                * 0x100) as u64,
            Button::Hat { id, state, which } => (0x3_0000_0000_0000 + id * 0x1_0000 + state * 0x100
                + which) as u64,
        }
    }

    /// The place of the button in the total order of buttons.
    pub fn code(&self) -> (c: u64)
        ensures
            c == self.spec_code(),
    {
        match *self {
            Button::Keyboard(key) => key as u64,
            Button::Mouse(number) => 0x1_0000_0000_0000u64 + number as u64,
            Button::Controller { id, button } => 0x2_0000_0000_0000u64 + id as u64 * 0x1_0000u64
                + button as u64 * 0x100u64,
            Button::Hat { id, state, which } => 0x3_0000_0000_0000u64 + id as u64 * 0x1_0000u64
                + state as u64 * 0x100u64 + which as u64,
        }
    }

    /// Two buttons with one code are one button.
    pub proof fn code_identifies(a: Button, b: Button)
        requires
            a.spec_code() == b.spec_code(),
        ensures
            a == b,
    {
    }
}

/// The buttons bound to one action: three slots, each empty or holding one
/// button. At most three buttons can be bound to an action, and no button
/// occupies two slots: [`ButtonTuple::wf`] says so.
///
/// A tuple made by `new` is well formed, and `insert_inplace` keeps it so.
/// The slots are public, to be read and to be written by hand; whoever
/// writes them by hand keeps the buttons distinct.
#[derive(Clone, Copy, Debug, PartialEq, Eq, Hash, Structural)]
pub struct ButtonTuple(pub Option<Button>, pub Option<Button>, pub Option<Button>);

impl ButtonTuple {
    /// The three slots, in order.
    pub open spec fn slots(self) -> Seq<Option<Button>> {
        seq![self.0, self.1, self.2]
    }

    /// Whether some slot holds `button`.
    pub open spec fn holds(self, button: Button) -> bool {
        self.0 == Some(button) || self.1 == Some(button) || self.2 == Some(button)
    }

    /// Whether some slot holds a button of the given code.
    pub open spec fn holds_code(self, code: u64) -> bool {
        ||| (self.0 is Some && self.0->0.spec_code() == code)
        ||| (self.1 is Some && self.1->0.spec_code() == code)
        ||| (self.2 is Some && self.2->0.spec_code() == code)
    }

    /// Whether no slot is empty.
    pub open spec fn is_full(self) -> bool {
        self.0 is Some && self.1 is Some && self.2 is Some
    }

    /// Whether no button occupies two slots.
    pub open spec fn wf(self) -> bool {
        &&& self.0 is Some ==> self.0 != self.1 && self.0 != self.2
        &&& self.1 is Some ==> self.1 != self.2
    }

    /// The tuple with `button` in its first empty slot; the tuple itself
    /// where no slot is empty.
    pub open spec fn with_button(self, button: Button) -> ButtonTuple {
        if self.0 is None {
            ButtonTuple(Some(button), self.1, self.2)
        } else if self.1 is None {
            ButtonTuple(self.0, Some(button), self.2)
        } else if self.2 is None {
            ButtonTuple(self.0, self.1, Some(button))
        } else {
            self
        }
    }

    /// A tuple with no buttons in it.
    pub fn new() -> (t: ButtonTuple)
        ensures
            t == ButtonTuple(None, None, None),
    {
        ButtonTuple(None, None, None)
    }

    /// Whether the button is in the tuple.
    pub fn contains(&self, button: Button) -> (found: bool)
        ensures
            found == self.holds(button),
    {
        let sbtn = Some(button);
        self.0 == sbtn || self.1 == sbtn || self.2 == sbtn
    }

    /// What `insert_inplace` leaves of the tuple: the tuple itself where it
    /// holds `button` already, else the tuple with `button` in its first
    /// empty slot.
    pub open spec fn inserted(self, button: Button) -> ButtonTuple {
        if self.holds(button) {
            self
        } else {
            self.with_button(button)
        }
    }

    /// Puts the button into the first empty slot, searching from left to
    /// right, and returns true. Where all three slots are taken the tuple
    /// stays as it is and false is returned.
    ///
    /// A button that the tuple holds already is not stored a second time:
    /// the tuple stays as it is. What is returned says, then too, whether a
    /// slot was empty, and so whether there was room for the button.
    pub fn insert_inplace(&mut self, button: Button) -> (room: bool)
        ensures
            room == !old(self).is_full(),
            *final(self) == old(self).inserted(button),
            old(self).is_full() ==> *final(self) == *old(self),
            old(self).wf() ==> final(self).wf(),
            !old(self).is_full() ==> final(self).holds(button),
    {
        let sbtn = Some(button);
        let present = self.contains(button);
        if self.0.is_none() {
            if !present {
                self.0 = sbtn;
            }
            true
        } else if self.1.is_none() {
            if !present {
                self.1 = sbtn;
            }
            true
        } else if self.2.is_none() {
            if !present {
                self.2 = sbtn;
            }
            true
        } else {
            false
        }
    }

    /// The button of the given code, where a slot holds it.
    pub fn find_code(&self, code: u64) -> (found: Option<Button>)
        ensures
            match found {
                Some(button) => self.holds(button) && button.spec_code() == code,
                None => !self.holds_code(code),
            },
    {
        if let Some(button) = self.0 {
            if button.code() == code {
                return Some(button);
            }
        }
        if let Some(button) = self.1 {
            if button.code() == code {
                return Some(button);
            }
        }
        if let Some(button) = self.2 {
            if button.code() == code {
                return Some(button);
            }
        }
        None
    }

    /// The slots of this tuple, to be taken one by one.
    pub fn iter(&self) -> (it: ButtonTupleIter)
        ensures
            it.remaining() == self.slots(),
    {
        (*self).into_iter()
    }

    /// The slots of this tuple, to be taken one by one.
    pub fn into_iter(self) -> (it: ButtonTupleIter)
        ensures
            it.remaining() == self.slots(),
    {
        let it = ButtonTupleIter { button_tuple: self, i: 0 };
        assert(it.remaining() =~= self.slots());
        it
    }
}

impl Default for ButtonTuple {
    fn default() -> (t: ButtonTuple)
        ensures
            t == ButtonTuple(None, None, None),
    {
        ButtonTuple(None, None, None)
    }
}

/// Hands out the three slots of a [`ButtonTuple`] in order, the empty ones
/// too.
pub struct ButtonTupleIter {
    button_tuple: ButtonTuple,
    i: usize,
}

impl ButtonTupleIter {
    /// The slots not yet handed out.
    pub closed spec fn remaining(self) -> Seq<Option<Button>> {
        if self.i < 3 {
            self.button_tuple.slots().skip(self.i as int)
        } else {
            Seq::empty()
        }
    }

    /// The next slot, or `None` once all three have been handed out.
    pub fn next(&mut self) -> (slot: Option<Option<Button>>)
        ensures
            old(self).remaining().len() == 0 ==> slot is None && final(self).remaining().len() == 0,
            old(self).remaining().len() > 0 ==> slot == Some(old(self).remaining()[0])
                && final(self).remaining() == old(self).remaining().skip(1),
    {
        let i = self.i;
        if i < 3 {
            self.i = i + 1;
        }
        proof {
            if i < 3 {
                assert(self.remaining() =~= old(self).remaining().skip(1));
            }
        }
        if i == 0 {
            Some(self.button_tuple.0)
        } else if i == 1 {
            Some(self.button_tuple.1)
        } else if i == 2 {
            Some(self.button_tuple.2)
        } else {
            None
        }
    }
}

} // verus!
