//! Hit-testing and the collision utility: which elements of a scene have a
//! collision box overlapping a given box.
//!
//! Elements are passed as two parallel sequences: the capability bundles, and
//! the collision boxes each element reported this frame (empty for elements
//! without boxes).  Results name elements by their index, in input order.

use vstd::prelude::*;

use crate::geom::{spec_contains, spec_overlaps, Rect, Vec2};
use crate::traits::Implementor;

verus! {

/// Whether the cursor lies over at least one of the boxes.
pub open spec fn spec_over_any(boxes: Seq<Rect>, cursor: Vec2) -> bool {
    exists|j: int| 0 <= j < boxes.len() && spec_contains(boxes[j], cursor)
}

/// Whether `lhs` overlaps at least one of the boxes.
pub open spec fn spec_hits_any(lhs: Rect, boxes: Seq<Rect>) -> bool {
    exists|j: int| 0 <= j < boxes.len() && spec_overlaps(lhs, boxes[j])
}

/// The indices, in input order, of the elements that carry the collideable
/// capability and report at least one box overlapping `lhs`, skipping the
/// index `skip` itself.  With `skip` outside the range no index is skipped.
pub open spec fn spec_colliding_excluding(
    lhs: Rect,
    elements: Seq<Implementor>,
    boxes: Seq<Seq<Rect>>,
    skip: int,
) -> Seq<usize>
    decreases elements.len(),
{
    if elements.len() == 0 {
        Seq::empty()
    } else {
        let i = elements.len() - 1;
        let prefix = spec_colliding_excluding(lhs, elements.drop_last(), boxes.take(i), skip);
        if i != skip && elements[i].collideable && spec_hits_any(lhs, boxes[i]) {
            prefix.push(i as usize)
        } else {
            prefix
        }
    }
}

/// The indices, in input order, of the elements that carry the collideable
/// capability and report at least one box overlapping `lhs`.
pub open spec fn spec_colliding(lhs: Rect, elements: Seq<Implementor>, boxes: Seq<Seq<Rect>>) -> Seq<
    usize,
> {
    spec_colliding_excluding(lhs, elements, boxes, elements.len() as int)
}

/// A check for whether a point position is within a `Rect`; an alias for
/// `Rect::contains`.
pub fn is_cursor_over(target: &Rect, cursor_pos: Vec2) -> (r: bool)
    ensures
        r == spec_contains(*target, cursor_pos),
{
    target.contains(cursor_pos)
}

/// A check for whether a cursor is over any of an element's collision boxes.
pub fn is_cursor_over_any(boxes: &Vec<Rect>, cursor_pos: Vec2) -> (r: bool)
    ensures
        r == spec_over_any(boxes@, cursor_pos),
{
    let mut j: usize = 0;
    while j < boxes.len()
        invariant
            j <= boxes@.len(),
            forall|k: int| 0 <= k < j ==> !spec_contains(boxes@[k], cursor_pos),
        decreases boxes@.len() - j,
    {
        if boxes[j].contains(cursor_pos) {
            return true;
        }
        j += 1;
    }
    false
}

/// Whether one element's reported boxes hit `lhs`: the element must carry
/// the collideable capability and expose at least one overlapping box.
fn hits_any(lhs: &Rect, boxes: &Vec<Rect>) -> (r: bool)
    ensures
        r == spec_hits_any(*lhs, boxes@),
{
    let mut j: usize = 0;
    while j < boxes.len()
        invariant
            j <= boxes@.len(),
            forall|k: int| 0 <= k < j ==> !spec_overlaps(*lhs, boxes@[k]),
        decreases boxes@.len() - j,
    {
        if lhs.overlaps(&boxes[j]) {
            return true;
        }
        j += 1;
    }
    false
}

/// As `colliding`, but leaving out the element at index `skip`: the form the
/// dispatcher uses so an element is never reported as colliding with itself.
pub fn colliding_excluding(
    lhs: &Rect,
    elements: &Vec<Implementor>,
    boxes: &Vec<Vec<Rect>>,
    skip: usize,
) -> (r: Vec<usize>)
    requires
        boxes@.len() == elements@.len(),
    ensures
        r@ == spec_colliding_excluding(*lhs, elements@, boxes_views(boxes@), skip as int),
{
    let mut r: Vec<usize> = Vec::new();
    let mut i: usize = 0;
    while i < elements.len()
        invariant
            i <= elements@.len(),
            boxes@.len() == elements@.len(),
            r@ == spec_colliding_excluding(
                *lhs,
                elements@.take(i as int),
                boxes_views(boxes@).take(i as int),
                skip as int,
            ),
        decreases elements@.len() - i,
    {
        if i != skip && elements[i].collideable && hits_any(lhs, &boxes[i]) {
            r.push(i);
        }
        i += 1;
        proof {
            lemma_colliding_excluding_step(
                *lhs,
                elements@,
                boxes_views(boxes@),
                skip as int,
                i as int,
            );
        }
    }
    proof {
        assert(elements@.take(elements@.len() as int) =~= elements@);
        assert(boxes_views(boxes@).take(elements@.len() as int) =~= boxes_views(boxes@));
    }
    r
}

/// Checks over a list of elements whether the `lhs` `Rect` is colliding with
/// any of an element's collision boxes, and returns the indices of the
/// elements that are colliding, in input order.
pub fn colliding(lhs: &Rect, elements: &Vec<Implementor>, boxes: &Vec<Vec<Rect>>) -> (r: Vec<usize>)
    requires
        boxes@.len() == elements@.len(),
    ensures
        r@ == spec_colliding(*lhs, elements@, boxes_views(boxes@)),
{
    let skip = elements.len();
    colliding_excluding(lhs, elements, boxes, skip)
}

/// The mathematical view of a list of per-element box lists.
pub open spec fn boxes_views(boxes: Seq<Vec<Rect>>) -> Seq<Seq<Rect>> {
    boxes.map_values(|v: Vec<Rect>| v@)
}

/// Unfolds one step of `spec_colliding_excluding` over a lengthening prefix.
proof fn lemma_colliding_excluding_step(
    lhs: Rect,
    elements: Seq<Implementor>,
    boxes: Seq<Seq<Rect>>,
    skip: int,
    i: int,
)
    requires
        0 < i <= elements.len(),
        boxes.len() == elements.len(),
    ensures
        spec_colliding_excluding(lhs, elements.take(i), boxes.take(i), skip)
            == if i - 1 != skip && elements[i - 1].collideable && spec_hits_any(lhs, boxes[i - 1]) {
                spec_colliding_excluding(lhs, elements.take(i - 1), boxes.take(i - 1), skip).push(
                    (i - 1) as usize,
                )
            } else {
                spec_colliding_excluding(lhs, elements.take(i - 1), boxes.take(i - 1), skip)
            },
{
    let et = elements.take(i);
    let bt = boxes.take(i);
    assert(et.drop_last() =~= elements.take(i - 1));
    assert(bt.take(i - 1) =~= boxes.take(i - 1));
    assert(et.last() == elements[i - 1]);
    assert(bt[i - 1] == boxes[i - 1]);
}

} // verus!
