//! The capability contracts an element may implement, and the `Implementor`
//! bundle that records which of them one element supports.
//!
//! Implementations live with the application: they own their mutable state
//! (positions, sprites, drag state) and issue external draw calls.  The
//! dispatcher never calls them directly; it produces a call plan naming each
//! element by its scene index, and the application's driver performs the
//! calls on the objects it holds for those indices.

use vstd::prelude::*;

use crate::geom::{Rect, Vec2};
use crate::input::MouseButton;

verus! {

/// An element: something that implements some or all of the capabilities.
/// Each flag records whether the element carries an implementation of that
/// capability; one underlying object may serve several flags at once.
#[derive(Clone, Copy, Debug, PartialEq, Eq, Structural)]
pub struct Implementor {
    pub clickable: bool,
    pub collideable: bool,
    pub displayable: bool,
    pub draggable: bool,
    pub hoverable: bool,
    pub inputtable: bool,
    pub updateable: bool,
}

impl Implementor {
    /// An element with no capabilities at all.
    pub fn none() -> (r: Implementor)
        ensures
            r == (Implementor {
                clickable: false,
                collideable: false,
                displayable: false,
                draggable: false,
                hoverable: false,
                inputtable: false,
                updateable: false,
            }),
    {
        Implementor {
            clickable: false,
            collideable: false,
            displayable: false,
            draggable: false,
            hoverable: false,
            inputtable: false,
            updateable: false,
        }
    }
}

impl Default for Implementor {
    /// The default element has no capabilities.
    fn default() -> (r: Implementor)
        ensures
            r == (Implementor {
                clickable: false,
                collideable: false,
                displayable: false,
                draggable: false,
                hoverable: false,
                inputtable: false,
                updateable: false,
            }),
    {
        Implementor::none()
    }
}

/// The base contract of user-made element builders: how an element comes
/// into being and how it is torn down.  No dispatcher path invokes
/// `despawn`; removal from a scene is deliberately unspecified.
pub trait ImplementorBuilder {
    fn spawn() -> Implementor;

    fn despawn(&mut self);
}

/// Behaviour for defining collision boxes and responding to collisions.
pub trait Collideable {
    /// The element's current collision boxes; an element reporting no boxes
    /// participates in no collision.
    fn collision_boxes(&self) -> Vec<Rect>;

    /// Reaction to a collision; `colliders` holds the scene indices of the
    /// colliding elements, in registration order.
    fn on_collide(&mut self, colliders: Vec<usize>);

    /// Debug visualisation of the boxes.  Drawing is external, so there is
    /// no default body; a no-op implementation is acceptable.
    fn draw_collision_boxes(&self);
}

/// Behaviour for responding to mouse clicks.
pub trait Clickable: Collideable {
    fn on_mouse_down(&mut self, button: MouseButton);

    fn on_mouse_up(&mut self, button: MouseButton);

    fn on_mouse_held(&mut self, button: MouseButton);
}

/// Behaviour for responding to mouse hovers.
pub trait Hoverable: Collideable {
    fn on_hover(&mut self, mouse_position: Vec2);

    fn on_not_hover(&mut self, mouse_position: Vec2);
}

/// Behaviour for responding to mouse drags.
pub trait Draggable {
    fn process_drag(&mut self, button: MouseButton, mouse_delta: Vec2);
}

/// Behaviour for elements that poll input state themselves, once per frame.
pub trait Inputtable {
    fn process_input(&mut self);
}

/// General behaviour for per-frame mutation with respect to delta time.
pub trait Updateable {
    fn update(&mut self, delta_t: i64);
}

/// Behaviour for drawing to the screen.
pub trait Displayable {
    /// Draw calls that do not require mutable access (static images,
    /// manually controlled animations).  No-op by default.
    fn static_draw(&self) {
    }

    /// Draw calls that require mutable access, such as advancing an
    /// animation.  No-op by default.
    fn draw(&mut self, delta_t: i64) {
    }
}

} // verus!
