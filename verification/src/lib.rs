//! A minimal retained-mode scene graph for real-time interactive
//! applications.
//!
//! Elements declare which behavioural capabilities they support (clickable,
//! collideable, draggable, hoverable, input-reactive, updateable,
//! displayable), and a per-frame dispatcher derives, from one per-frame input
//! snapshot, exactly the capability calls each element receives, in a fixed,
//! well-defined order.  Rendering, device polling and the window loop are
//! external collaborators: they feed the dispatcher plain snapshots and carry
//! out the call plans it returns.

pub mod animation;
pub mod collide;
pub mod driver;
pub mod geom;
pub mod input;
pub mod scene;
pub mod traits;
