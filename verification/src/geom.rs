//! Integer geometry for the virtual canvas: points and axis-aligned
//! rectangles, with the closed-interval containment and overlap tests the
//! hit-testing and collision steps are built on.

use vstd::prelude::*;

verus! {

/// A point or displacement in the virtual canvas, in integer canvas units.
#[derive(Clone, Copy, Debug, PartialEq, Eq, Structural)]
pub struct Vec2 {
    pub x: i32,
    pub y: i32,
}

/// An axis-aligned rectangle: top-left corner, width going right, height
/// going down.
#[derive(Clone, Copy, Debug, PartialEq, Eq, Structural)]
pub struct Rect {
    pub x: i32,
    pub y: i32,
    pub w: i32,
    pub h: i32,
}

/// Whether `p` lies within the closed rectangle `r`; points on an edge count
/// as inside.
pub open spec fn spec_contains(r: Rect, p: Vec2) -> bool {
    r.x <= p.x <= r.x + r.w && r.y <= p.y <= r.y + r.h
}

/// Whether the closed rectangles `a` and `b` intersect; rectangles that only
/// touch along an edge count as overlapping.
pub open spec fn spec_overlaps(a: Rect, b: Rect) -> bool {
    a.x <= b.x + b.w && a.x + a.w >= b.x && a.y <= b.y + b.h && a.y + a.h >= b.y
}

impl Vec2 {
    pub fn new(x: i32, y: i32) -> (r: Vec2)
        ensures
            r == (Vec2 { x, y }),
    {
        Vec2 { x, y }
    }
}

impl Rect {
    pub fn new(x: i32, y: i32, w: i32, h: i32) -> (r: Rect)
        ensures
            r == (Rect { x, y, w, h }),
    {
        Rect { x, y, w, h }
    }

    /// Closed-interval point test.
    pub fn contains(&self, point: Vec2) -> (r: bool)
        ensures
            r == spec_contains(*self, point),
    {
        let px = point.x as i64;
        let py = point.y as i64;
        px >= self.x as i64 && px <= self.x as i64 + self.w as i64
            && py >= self.y as i64 && py <= self.y as i64 + self.h as i64
    }

    /// Closed-interval intersection test.
    pub fn overlaps(&self, other: &Rect) -> (r: bool)
        ensures
            r == spec_overlaps(*self, *other),
    {
        self.x as i64 <= other.x as i64 + other.w as i64
            && self.x as i64 + self.w as i64 >= other.x as i64
            && self.y as i64 <= other.y as i64 + other.h as i64
            && self.y as i64 + self.h as i64 >= other.y as i64
    }
}

} // verus!
