//! The per-frame input snapshot: the cursor position and movement, and the
//! tri-state transition flags of the three mouse buttons, all captured once
//! by the external input provider before a frame is dispatched.

use vstd::prelude::*;

use crate::geom::Vec2;

verus! {

/// One of the three mouse buttons the dispatcher distinguishes.
#[derive(Clone, Copy, Debug, PartialEq, Eq, Structural)]
pub enum MouseButton {
    Left,
    Middle,
    Right,
}

/// The tri-state of one mouse button during one frame: whether it went down
/// this frame (`pressed`), is held this frame (`down`), and came up this
/// frame (`released`).
#[derive(Clone, Copy, Debug, PartialEq, Eq, Structural)]
pub struct ButtonSnapshot {
    pub pressed: bool,
    pub down: bool,
    pub released: bool,
}

/// Everything the dispatcher reads about input during one frame.  The
/// snapshot is taken once per frame; every hover, click and drag decision of
/// that frame is derived from this one value.
#[derive(Clone, Copy, Debug, PartialEq, Eq, Structural)]
pub struct InputSnapshot {
    /// Cursor position in virtual-canvas coordinates.
    pub cursor: Vec2,
    /// Cursor displacement since the previous frame.
    pub cursor_delta: Vec2,
    pub left: ButtonSnapshot,
    pub middle: ButtonSnapshot,
    pub right: ButtonSnapshot,
}

impl ButtonSnapshot {
    /// A button that saw no activity this frame.
    pub fn idle() -> (r: ButtonSnapshot)
        ensures
            r == (ButtonSnapshot { pressed: false, down: false, released: false }),
    {
        ButtonSnapshot { pressed: false, down: false, released: false }
    }
}

impl InputSnapshot {
    /// The snapshot of the given button.
    pub open spec fn spec_button(self, b: MouseButton) -> ButtonSnapshot {
        match b {
            MouseButton::Left => self.left,
            MouseButton::Middle => self.middle,
            MouseButton::Right => self.right,
        }
    }

    pub fn button(&self, b: MouseButton) -> (r: ButtonSnapshot)
        ensures
            r == self.spec_button(b),
    {
        match b {
            MouseButton::Left => self.left,
            MouseButton::Middle => self.middle,
            MouseButton::Right => self.right,
        }
    }

    /// A frame with the cursor at rest at the origin and no button activity.
    pub fn idle() -> (r: InputSnapshot)
        ensures
            r.cursor == (Vec2 { x: 0, y: 0 }),
            r.cursor_delta == (Vec2 { x: 0, y: 0 }),
            r.left == (ButtonSnapshot { pressed: false, down: false, released: false }),
            r.middle == (ButtonSnapshot { pressed: false, down: false, released: false }),
            r.right == (ButtonSnapshot { pressed: false, down: false, released: false }),
    {
        InputSnapshot {
            cursor: Vec2 { x: 0, y: 0 },
            cursor_delta: Vec2 { x: 0, y: 0 },
            left: ButtonSnapshot::idle(),
            middle: ButtonSnapshot::idle(),
            right: ButtonSnapshot::idle(),
        }
    }
}

} // verus!
