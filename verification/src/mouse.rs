//! Mouse behaviour: which axes are inverted, and what that does to a motion.
//!
//! Coordinates never enter the library. For a motion of a given kind the
//! library says what is to be done to each of its two coordinates, and the
//! caller, who holds the coordinates, does it.

use vstd::prelude::*;

verus! {

/// The size of the area that mouse positions are measured in.
#[derive(Clone, Copy, Debug, PartialEq, Eq, Structural)]
pub struct Size {
    /// The width.
    pub width: u32,
    /// The height.
    pub height: u32,
}

/// What a viewport says of the area drawn to.
#[derive(Clone, Copy, Debug)]
pub struct Viewport {
    /// The size of the frame buffer: `[width, height]`.
    pub draw_size: [u32; 2],
}

/// The kinds of motion that an input event can report.
#[derive(Clone, Copy, Debug, PartialEq, Eq, Structural)]
pub enum Motion {
    /// A position of the cursor in the window.
    MouseCursor,
    /// A movement of the mouse relative to where it was.
    MouseRelative,
    /// A movement of the scroll wheel.
    MouseScroll,
    /// A movement of a controller axis.
    ControllerAxis,
    /// A touch.
    Touch,
}

/// What is to be done to one coordinate of a motion.
#[derive(Clone, Copy, Debug, PartialEq, Eq, Structural)]
pub enum AxisChange {
    /// The coordinate stays as it is.
    Keep,
    /// The coordinate changes its sign.
    Negate,
    /// The coordinate `v` becomes `extent - v`, for the extent given here.
    /// Nothing is clamped: a coordinate beyond the extent becomes negative.
    Reflect(u32),
}

/// What is to be done to the two coordinates of a motion.
#[derive(Clone, Copy, Debug, PartialEq, Eq, Structural)]
pub struct MotionChange {
    /// The change to the first coordinate.
    pub x: AxisChange,
    /// The change to the second coordinate.
    pub y: AxisChange,
}

/// Which axes are inverted, and the viewport size that positions of the
/// cursor are reflected in.
#[derive(Clone, Copy, Debug, PartialEq, Eq, Structural)]
pub struct MouseTranslationData {
    /// Whether positions of the cursor are reflected horizontally.
    pub x_axis_motion_inverted: bool,
    /// Whether positions of the cursor are reflected vertically.
    pub y_axis_motion_inverted: bool,
    /// Whether horizontal scrolling is inverted.
    pub x_axis_scroll_inverted: bool,
    /// Whether vertical scrolling is inverted.
    pub y_axis_scroll_inverted: bool,
    /// The size of the viewport.
    pub viewport_size: Size,
}

impl MouseTranslationData {
    /// The data that inverts nothing, for a viewport of the given size.
    pub open spec fn plain(size: Size) -> MouseTranslationData {
        MouseTranslationData {
            x_axis_motion_inverted: false,
            y_axis_motion_inverted: false,
            x_axis_scroll_inverted: false,
            y_axis_scroll_inverted: false,
            viewport_size: size,
        }
    }

    /// What these data ask for a motion of the given kind. A position of the
    /// cursor is reflected in the viewport along each inverted axis, a
    /// scroll changes sign along each inverted axis, and nothing else is
    /// touched.
    pub open spec fn change_for(self, motion: Motion) -> MotionChange {
        match motion {
            Motion::MouseCursor => MotionChange {
                x: if self.x_axis_motion_inverted {
                    AxisChange::Reflect(self.viewport_size.width)
                } else {
                    AxisChange::Keep
                },
                y: if self.y_axis_motion_inverted {
                    AxisChange::Reflect(self.viewport_size.height)
                } else {
                    AxisChange::Keep
                },
            },
            Motion::MouseScroll => MotionChange {
                x: if self.x_axis_scroll_inverted {
                    AxisChange::Negate
                } else {
                    AxisChange::Keep
                },
                y: if self.y_axis_scroll_inverted {
                    AxisChange::Negate
                } else {
                    AxisChange::Keep
                },
            },
            _ => MotionChange { x: AxisChange::Keep, y: AxisChange::Keep },
        }
    }

    /// Data that invert nothing, for a viewport of the given size.
    pub fn new(size: Size) -> (data: MouseTranslationData)
        ensures
            data == MouseTranslationData::plain(size),
    {
        MouseTranslationData {
            x_axis_motion_inverted: false,
            y_axis_motion_inverted: false,
            x_axis_scroll_inverted: false,
            y_axis_scroll_inverted: false,
            viewport_size: size,
        }
    }
}

/// Turns motions into the changes that the axis settings ask for.
#[derive(Clone, Copy, Debug, PartialEq, Eq, Structural)]
pub struct MouseTranslator {
    /// The axis settings.
    pub data: MouseTranslationData,
}

impl MouseTranslator {
    /// A translator that inverts nothing, for a viewport of the given size.
    pub fn new(size: Size) -> (translator: MouseTranslator)
        ensures
            translator.data == MouseTranslationData::plain(size),
    {
        MouseTranslator { data: MouseTranslationData::new(size) }
    }

    /// What is to be done to the coordinates of a motion of the given kind.
    pub fn translate(&self, motion: Motion) -> (change: MotionChange)
        ensures
            change == self.data.change_for(motion),
    {
        match motion {
            Motion::MouseCursor => {
                let Size { width, height } = self.data.viewport_size;
                let cx = if self.data.x_axis_motion_inverted {
                    AxisChange::Reflect(width)
                } else {
                    AxisChange::Keep
                };
                let cy = if self.data.y_axis_motion_inverted {
                    AxisChange::Reflect(height)
                } else {
                    AxisChange::Keep
                };
                MotionChange { x: cx, y: cy }
            },
            Motion::MouseScroll => {
                let mx = if self.data.x_axis_scroll_inverted {
                    AxisChange::Negate
                } else {
                    AxisChange::Keep
                };
                let my = if self.data.y_axis_scroll_inverted {
                    AxisChange::Negate
                } else {
                    AxisChange::Keep
                };
                MotionChange { x: mx, y: my }
            },
            _ => MotionChange { x: AxisChange::Keep, y: AxisChange::Keep },
        }
    }
}

} // verus!
