//! Binding physical buttons to logical actions.
//!
//! Two views of one binding set are offered. An [`InputTranslator`] maps each
//! button to the one action it triggers and answers a lookup per input event.
//! An [`InputRebind`] maps each action to the at most three buttons bound to
//! it and is the view to edit and to display. Each view converts into the
//! other, and the contracts of the conversions say exactly which bindings
//! survive.

pub mod action;
pub mod builder;
pub mod button;
pub mod conversion;
pub mod event;
pub mod groups;
pub mod laws;
pub mod mouse;
pub mod order;
pub mod rebind;
pub mod translator;

pub use action::{distinct_ranks, rank_law, ranks_follow_ord, Action};
pub use builder::RebindBuilder;
pub use button::{Button, ButtonTuple, ButtonTupleIter};
pub use event::{Input, Translated};
pub use mouse::{
    AxisChange, Motion, MotionChange, MouseTranslationData, MouseTranslator, Size, Viewport,
};
pub use rebind::InputRebind;
pub use translator::InputTranslator;
