//! Input events, and what they translate to.

use vstd::prelude::*;
use crate::action::Action;
use crate::button::Button;
use crate::mouse::{Motion, MotionChange};

verus! {

/// An input event, as far as bindings are concerned.
#[derive(Clone, Copy, Debug, PartialEq, Eq)]
pub enum Input {
    /// A button was pressed.
    Press(Button),
    /// A button was released.
    Release(Button),
    /// Something moved.
    Move(Motion),
    /// Any other event: text, a resize, a change of focus.
    Other,
}

/// A translated event.
#[derive(Debug, Copy, PartialEq)]
pub enum Translated<A: Action> {
    /// A button was pressed that is bound to this action.
    Press(A),
    /// A button was released that is bound to this action.
    Release(A),
    /// Something moved, and this is to be done to its coordinates. After the
    /// change the origin of cursor positions is the corner that the axis
    /// settings put it in, and scrolling runs the way they say.
    Move(MotionChange),
}

impl<A: Action> Clone for Translated<A> {
    fn clone(&self) -> (copy: Self)
        ensures
            copy == *self,
    {
        *self
    }
}

} // verus!
