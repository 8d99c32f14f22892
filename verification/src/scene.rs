//! The scene: an insertion-ordered collection of elements, and the per-frame
//! dispatcher that turns one input snapshot into the exact, ordered plan of
//! capability calls for the frame.
//!
//! The dispatcher is a pure function of the registered elements, the boxes
//! each element reports this frame, the input snapshot and the frame's delta
//! time.  For every element, in registration order, it plans the fixed
//! sequence of steps: click, input, hover, drag, collide, update, display,
//! skipping any step whose capability the element lacks.  The application's
//! driver performs the planned calls, in order, on the capability objects it
//! holds; a call that faults simply aborts the rest of the plan, as the
//! dispatcher provides no partial-failure isolation.

use vstd::prelude::*;
use crate::collide::{
    boxes_views, colliding_excluding, is_cursor_over_any, spec_colliding_excluding, spec_over_any,
};
use crate::geom::{Rect, Vec2};
use crate::input::{InputSnapshot, MouseButton};
use crate::traits::Implementor;

verus! {

/// One planned capability call, naming the receiving element by its scene
/// index.
#[derive(Clone, Debug, PartialEq, Eq)]
pub enum DispatchCall {
    MouseHeld { target: usize, button: MouseButton },
    MouseDown { target: usize, button: MouseButton },
    MouseUp { target: usize, button: MouseButton },
    ProcessInput { target: usize },
    Hover { target: usize, position: Vec2 },
    NotHover { target: usize, position: Vec2 },
    Drag { target: usize, button: MouseButton, delta: Vec2 },
    Collide { target: usize, colliders: Vec<usize> },
    DrawCollisionBoxes { target: usize },
    Update { target: usize, delta_t: i64 },
    Draw { target: usize, delta_t: i64 },
    StaticDraw { target: usize },
}

/// The mathematical shape of one planned call.
pub enum CallView {
    MouseHeld { target: usize, button: MouseButton },
    MouseDown { target: usize, button: MouseButton },
    MouseUp { target: usize, button: MouseButton },
    ProcessInput { target: usize },
    Hover { target: usize, position: Vec2 },
    NotHover { target: usize, position: Vec2 },
    Drag { target: usize, button: MouseButton, delta: Vec2 },
    Collide { target: usize, colliders: Seq<usize> },
    DrawCollisionBoxes { target: usize },
    Update { target: usize, delta_t: i64 },
    Draw { target: usize, delta_t: i64 },
    StaticDraw { target: usize },
}

impl View for DispatchCall {
    type V = CallView;

    open spec fn view(&self) -> CallView {
        match self {
            DispatchCall::MouseHeld { target, button } => CallView::MouseHeld {
                target: *target,
                button: *button,
            },
            DispatchCall::MouseDown { target, button } => CallView::MouseDown {
                target: *target,
                button: *button,
            },
            DispatchCall::MouseUp { target, button } => CallView::MouseUp {
                target: *target,
                button: *button,
            },
            DispatchCall::ProcessInput { target } => CallView::ProcessInput { target: *target },
            DispatchCall::Hover { target, position } => CallView::Hover {
                target: *target,
                position: *position,
            },
            DispatchCall::NotHover { target, position } => CallView::NotHover {
                target: *target,
                position: *position,
            },
            DispatchCall::Drag { target, button, delta } => CallView::Drag {
                target: *target,
                button: *button,
                delta: *delta,
            },
            DispatchCall::Collide { target, colliders } => CallView::Collide {
                target: *target,
                colliders: colliders@,
            },
            DispatchCall::DrawCollisionBoxes { target } => CallView::DrawCollisionBoxes {
                target: *target,
            },
            DispatchCall::Update { target, delta_t } => CallView::Update {
                target: *target,
                delta_t: *delta_t,
            },
            DispatchCall::Draw { target, delta_t } => CallView::Draw {
                target: *target,
                delta_t: *delta_t,
            },
            DispatchCall::StaticDraw { target } => CallView::StaticDraw { target: *target },
        }
    }
}

/// The views of a built call plan.
pub open spec fn views_of(s: Seq<DispatchCall>) -> Seq<CallView> {
    s.map_values(|c: DispatchCall| c@)
}

/// A plan fragment of at most one call.
pub open spec fn maybe_call(cond: bool, c: CallView) -> Seq<CallView> {
    if cond {
        seq![c]
    } else {
        Seq::empty()
    }
}

/// The click step of one element.  The input's press transition is wired to
/// the `on_mouse_held` callback and the held level to `on_mouse_down`: the
/// dispatcher preserves this historical mapping deliberately, so consumers
/// that rely on it keep working; the release transition goes to
/// `on_mouse_up`.  Within each category the buttons are checked in the order
/// left, middle, right.
pub open spec fn spec_click_calls(i: usize, inp: InputSnapshot) -> Seq<CallView> {
    maybe_call(inp.left.pressed, CallView::MouseHeld { target: i, button: MouseButton::Left })
        + maybe_call(
        inp.middle.pressed,
        CallView::MouseHeld { target: i, button: MouseButton::Middle },
    ) + maybe_call(inp.right.pressed, CallView::MouseHeld { target: i, button: MouseButton::Right })
        + maybe_call(inp.left.down, CallView::MouseDown { target: i, button: MouseButton::Left })
        + maybe_call(
        inp.middle.down,
        CallView::MouseDown { target: i, button: MouseButton::Middle },
    ) + maybe_call(inp.right.down, CallView::MouseDown { target: i, button: MouseButton::Right })
        + maybe_call(inp.left.released, CallView::MouseUp { target: i, button: MouseButton::Left })
        + maybe_call(
        inp.middle.released,
        CallView::MouseUp { target: i, button: MouseButton::Middle },
    ) + maybe_call(inp.right.released, CallView::MouseUp { target: i, button: MouseButton::Right })
}

/// The hover step of one element: exactly one of the two callbacks, decided
/// by whether the cursor lies over any of the element's boxes.
pub open spec fn spec_hover_calls(i: usize, inp: InputSnapshot, bs: Seq<Rect>) -> Seq<CallView> {
    if spec_over_any(bs, inp.cursor) {
        seq![CallView::Hover { target: i, position: inp.cursor }]
    } else {
        seq![CallView::NotHover { target: i, position: inp.cursor }]
    }
}

/// The drag step of one element: at most one call, with button priority
/// left over right over middle among the buttons held this frame.
pub open spec fn spec_drag_calls(i: usize, inp: InputSnapshot) -> Seq<CallView> {
    if inp.left.down {
        seq![CallView::Drag { target: i, button: MouseButton::Left, delta: inp.cursor_delta }]
    } else if inp.right.down {
        seq![CallView::Drag { target: i, button: MouseButton::Right, delta: inp.cursor_delta }]
    } else if inp.middle.down {
        seq![CallView::Drag { target: i, button: MouseButton::Middle, delta: inp.cursor_delta }]
    } else {
        Seq::empty()
    }
}

/// The collide step of one element: its first reported box is tested
/// against every other element of the scene, the reaction call carries the
/// indices that collide, and the debug box rendering follows.  An element
/// reporting no boxes participates in no collision and the step is skipped.
pub open spec fn spec_collide_calls(
    i: usize,
    elements: Seq<Implementor>,
    boxes: Seq<Seq<Rect>>,
) -> Seq<CallView> {
    if boxes[i as int].len() == 0 {
        Seq::empty()
    } else {
        seq![
            CallView::Collide {
                target: i,
                colliders: spec_colliding_excluding(boxes[i as int][0], elements, boxes, i as int),
            },
            CallView::DrawCollisionBoxes { target: i },
        ]
    }
}

/// All calls one element receives during one frame, in the fixed step
/// order: click, input, hover, drag, collide, update, display.
pub open spec fn spec_entity_calls(
    elements: Seq<Implementor>,
    boxes: Seq<Seq<Rect>>,
    inp: InputSnapshot,
    delta_t: i64,
    i: usize,
) -> Seq<CallView> {
    let e = elements[i as int];
    (if e.clickable {
        spec_click_calls(i, inp)
    } else {
        Seq::empty()
    }) + maybe_call(e.inputtable, CallView::ProcessInput { target: i }) + (if e.hoverable {
        spec_hover_calls(i, inp, boxes[i as int])
    } else {
        Seq::empty()
    }) + (if e.draggable {
        spec_drag_calls(i, inp)
    } else {
        Seq::empty()
    }) + (if e.collideable {
        spec_collide_calls(i, elements, boxes)
    } else {
        Seq::empty()
    }) + maybe_call(e.updateable, CallView::Update { target: i, delta_t })
        + maybe_call(e.displayable, CallView::Draw { target: i, delta_t })
        + maybe_call(e.displayable, CallView::StaticDraw { target: i })
}

/// The plan for the first `k` elements, in registration order.
pub open spec fn spec_plan_upto(
    elements: Seq<Implementor>,
    boxes: Seq<Seq<Rect>>,
    inp: InputSnapshot,
    delta_t: i64,
    k: int,
) -> Seq<CallView>
    decreases k,
{
    if k <= 0 {
        Seq::empty()
    } else {
        spec_plan_upto(elements, boxes, inp, delta_t, k - 1) + spec_entity_calls(
            elements,
            boxes,
            inp,
            delta_t,
            (k - 1) as usize,
        )
    }
}

/// The whole frame's call plan.
pub open spec fn spec_frame_plan(
    elements: Seq<Implementor>,
    boxes: Seq<Seq<Rect>>,
    inp: InputSnapshot,
    delta_t: i64,
) -> Seq<CallView> {
    spec_plan_upto(elements, boxes, inp, delta_t, elements.len() as int)
}

/// Appending one call appends its view.
proof fn lemma_views_push(s: Seq<DispatchCall>, c: DispatchCall)
    ensures
        views_of(s.push(c)) == views_of(s).push(c@),
{
    assert(views_of(s.push(c)) =~= views_of(s).push(c@));
}

/// Appending nothing changes nothing.
proof fn lemma_add_empty<A>(s: Seq<A>)
    ensures
        s + Seq::<A>::empty() == s,
{
    assert(s + Seq::<A>::empty() =~= s);
}

/// A push is the same as appending a singleton.
proof fn lemma_push_is_add1<A>(s: Seq<A>, a: A)
    ensures
        s.push(a) == s + seq![a],
{
    assert(s.push(a) =~= s + seq![a]);
}

/// Two pushes are the same as appending a pair.
proof fn lemma_push_is_add2<A>(s: Seq<A>, a: A, b: A)
    ensures
        s.push(a).push(b) == s + seq![a, b],
{
    assert(s.push(a).push(b) =~= s + seq![a, b]);
}

/// Reassociates a chain of eight appended fragments.
#[verifier::rlimit(30)]
proof fn lemma_add_assoc8<A>(
    v: Seq<A>,
    a1: Seq<A>,
    a2: Seq<A>,
    a3: Seq<A>,
    a4: Seq<A>,
    a5: Seq<A>,
    a6: Seq<A>,
    a7: Seq<A>,
    a8: Seq<A>,
)
    ensures
        v + a1 + a2 + a3 + a4 + a5 + a6 + a7 + a8 == v + (a1 + a2 + a3 + a4 + a5 + a6 + a7 + a8),
{
    assert(v + a1 + a2 + a3 + a4 + a5 + a6 + a7 + a8 =~= v + (a1 + a2 + a3 + a4 + a5 + a6 + a7
        + a8));
}

/// Reassociates a chain of nine appended fragments.
#[verifier::rlimit(30)]
proof fn lemma_add_assoc9<A>(
    v: Seq<A>,
    a1: Seq<A>,
    a2: Seq<A>,
    a3: Seq<A>,
    a4: Seq<A>,
    a5: Seq<A>,
    a6: Seq<A>,
    a7: Seq<A>,
    a8: Seq<A>,
    a9: Seq<A>,
)
    ensures
        v + a1 + a2 + a3 + a4 + a5 + a6 + a7 + a8 + a9 == v + (a1 + a2 + a3 + a4 + a5 + a6 + a7
            + a8 + a9),
{
    assert(v + a1 + a2 + a3 + a4 + a5 + a6 + a7 + a8 + a9 =~= v + (a1 + a2 + a3 + a4 + a5 + a6 + a7
        + a8 + a9));
}

/// Plans `c` exactly when `cond` holds.
fn push_maybe(plan: &mut Vec<DispatchCall>, cond: bool, c: DispatchCall)
    ensures
        views_of(final(plan)@) == views_of(old(plan)@) + maybe_call(cond, c@),
{
    if cond {
        plan.push(c);
        proof {
            lemma_views_push(old(plan)@, c);
            lemma_push_is_add1(views_of(old(plan)@), c@);
        }
    } else {
        proof {
            lemma_add_empty::<CallView>(views_of(plan@));
        }
    }
}

/// A base store for elements.
pub struct Scene {
    pub elements: Vec<Implementor>,
}

impl Scene {
    pub fn new() -> (r: Scene)
        ensures
            r.elements@ == Seq::<Implementor>::empty(),
    {
        Scene { elements: Vec::new() }
    }

    /// Registers a new element to the scene: appended at the end, so
    /// dispatch order equals registration order.
    pub fn register(&mut self, e: Implementor)
        ensures
            final(self).elements@ == old(self).elements@.push(e),
    {
        self.elements.push(e);
    }

    /// Default frame progression: computes the frame's complete call plan
    /// from one input snapshot and the boxes each element reports this
    /// frame.  The plan is exactly `spec_frame_plan` of those values.
    pub fn frame_progression(
        &self,
        delta_t: i64,
        input: &InputSnapshot,
        boxes: &Vec<Vec<Rect>>,
    ) -> (plan: Vec<DispatchCall>)
        requires
            boxes@.len() == self.elements@.len(),
        ensures
            views_of(plan@) == spec_frame_plan(
                self.elements@,
                boxes_views(boxes@),
                *input,
                delta_t,
            ),
    {
        let ghost bv = boxes_views(boxes@);
        let mut plan: Vec<DispatchCall> = Vec::new();
        let mut i: usize = 0;
        proof {
            assert(views_of(plan@) =~= spec_plan_upto(self.elements@, bv, *input, delta_t, 0));
        }
        while i < self.elements.len()
            invariant
                i <= self.elements@.len(),
                boxes@.len() == self.elements@.len(),
                bv == boxes_views(boxes@),
                views_of(plan@) == spec_plan_upto(self.elements@, bv, *input, delta_t, i as int),
            decreases self.elements@.len() - i,
        {
            let ghost entered = views_of(plan@);
            let e = self.elements[i];
            let ghost s1 = if e.clickable {
                spec_click_calls(i, *input)
            } else {
                Seq::<CallView>::empty()
            };
            let ghost s2 = maybe_call(e.inputtable, CallView::ProcessInput { target: i });
            let ghost s3 = if e.hoverable {
                spec_hover_calls(i, *input, bv[i as int])
            } else {
                Seq::<CallView>::empty()
            };
            let ghost s4 = if e.draggable {
                spec_drag_calls(i, *input)
            } else {
                Seq::<CallView>::empty()
            };
            let ghost s5 = if e.collideable {
                spec_collide_calls(i, self.elements@, bv)
            } else {
                Seq::<CallView>::empty()
            };
            let ghost s6 = maybe_call(e.updateable, CallView::Update { target: i, delta_t });
            let ghost s7 = maybe_call(e.displayable, CallView::Draw { target: i, delta_t });
            let ghost s8 = maybe_call(e.displayable, CallView::StaticDraw { target: i });
            proof {
                assert(bv[i as int] == boxes@[i as int]@);
            }
            push_click_step(&mut plan, e, i, input);
            push_input_step(&mut plan, e, i);
            push_hover_step(&mut plan, e, i, input, &boxes[i]);
            push_drag_step(&mut plan, e, i, input);
            push_collide_step(&mut plan, &self.elements, boxes, i);
            push_update_step(&mut plan, e, i, delta_t);
            push_display_step(&mut plan, e, i, delta_t);
            proof {
                assert(views_of(plan@) == entered + s1 + s2 + s3 + s4 + s5 + s6 + s7 + s8);
                lemma_add_assoc8(entered, s1, s2, s3, s4, s5, s6, s7, s8);
                assert(spec_entity_calls(self.elements@, bv, *input, delta_t, i) == s1 + s2 + s3
                    + s4 + s5 + s6 + s7 + s8);
                assert(views_of(plan@) == spec_plan_upto(
                    self.elements@,
                    bv,
                    *input,
                    delta_t,
                    i + 1,
                ));
            }
            i += 1;
        }
        plan
    }
}

/// The click step: one call per raised button flag, press transitions
/// first, then held levels, then releases, buttons in the order left,
/// middle, right within each category.
fn push_click_step(plan: &mut Vec<DispatchCall>, e: Implementor, i: usize, input: &InputSnapshot)
    ensures
        views_of(final(plan)@) == views_of(old(plan)@) + (if e.clickable {
            spec_click_calls(i, *input)
        } else {
            Seq::<CallView>::empty()
        }),
{
    let ghost v0 = views_of(old(plan)@);
    let ghost m1 = maybe_call(
        input.left.pressed,
        CallView::MouseHeld { target: i, button: MouseButton::Left },
    );
    let ghost m2 = maybe_call(
        input.middle.pressed,
        CallView::MouseHeld { target: i, button: MouseButton::Middle },
    );
    let ghost m3 = maybe_call(
        input.right.pressed,
        CallView::MouseHeld { target: i, button: MouseButton::Right },
    );
    let ghost m4 = maybe_call(
        input.left.down,
        CallView::MouseDown { target: i, button: MouseButton::Left },
    );
    let ghost m5 = maybe_call(
        input.middle.down,
        CallView::MouseDown { target: i, button: MouseButton::Middle },
    );
    let ghost m6 = maybe_call(
        input.right.down,
        CallView::MouseDown { target: i, button: MouseButton::Right },
    );
    let ghost m7 = maybe_call(
        input.left.released,
        CallView::MouseUp { target: i, button: MouseButton::Left },
    );
    let ghost m8 = maybe_call(
        input.middle.released,
        CallView::MouseUp { target: i, button: MouseButton::Middle },
    );
    let ghost m9 = maybe_call(
        input.right.released,
        CallView::MouseUp { target: i, button: MouseButton::Right },
    );
    if e.clickable {
        push_maybe(
            plan,
            input.left.pressed,
            DispatchCall::MouseHeld { target: i, button: MouseButton::Left },
        );
        push_maybe(
            plan,
            input.middle.pressed,
            DispatchCall::MouseHeld { target: i, button: MouseButton::Middle },
        );
        push_maybe(
            plan,
            input.right.pressed,
            DispatchCall::MouseHeld { target: i, button: MouseButton::Right },
        );
        push_maybe(
            plan,
            input.left.down,
            DispatchCall::MouseDown { target: i, button: MouseButton::Left },
        );
        push_maybe(
            plan,
            input.middle.down,
            DispatchCall::MouseDown { target: i, button: MouseButton::Middle },
        );
        push_maybe(
            plan,
            input.right.down,
            DispatchCall::MouseDown { target: i, button: MouseButton::Right },
        );
        push_maybe(
            plan,
            input.left.released,
            DispatchCall::MouseUp { target: i, button: MouseButton::Left },
        );
        push_maybe(
            plan,
            input.middle.released,
            DispatchCall::MouseUp { target: i, button: MouseButton::Middle },
        );
        push_maybe(
            plan,
            input.right.released,
            DispatchCall::MouseUp { target: i, button: MouseButton::Right },
        );
        proof {
            assert(views_of(plan@) == v0 + m1 + m2 + m3 + m4 + m5 + m6 + m7 + m8 + m9);
            lemma_add_assoc9(v0, m1, m2, m3, m4, m5, m6, m7, m8, m9);
            assert(spec_click_calls(i, *input) == m1 + m2 + m3 + m4 + m5 + m6 + m7 + m8 + m9);
        }
    } else {
        proof {
            lemma_add_empty::<CallView>(v0);
        }
    }
}

/// The input step: the generic per-frame input hook, unconditionally.
fn push_input_step(plan: &mut Vec<DispatchCall>, e: Implementor, i: usize)
    ensures
        views_of(final(plan)@) == views_of(old(plan)@) + maybe_call(
            e.inputtable,
            CallView::ProcessInput { target: i },
        ),
{
    push_maybe(plan, e.inputtable, DispatchCall::ProcessInput { target: i });
}

/// The hover step: the cursor is tested against the element's boxes and
/// exactly one of the two hover callbacks is planned.
fn push_hover_step(
    plan: &mut Vec<DispatchCall>,
    e: Implementor,
    i: usize,
    input: &InputSnapshot,
    bs: &Vec<Rect>,
)
    ensures
        views_of(final(plan)@) == views_of(old(plan)@) + (if e.hoverable {
            spec_hover_calls(i, *input, bs@)
        } else {
            Seq::<CallView>::empty()
        }),
{
    let ghost v0 = views_of(old(plan)@);
    if e.hoverable {
        if is_cursor_over_any(bs, input.cursor) {
            let c = DispatchCall::Hover { target: i, position: input.cursor };
            plan.push(c);
            proof {
                lemma_views_push(old(plan)@, c);
                lemma_push_is_add1(v0, c@);
            }
        } else {
            let c = DispatchCall::NotHover { target: i, position: input.cursor };
            plan.push(c);
            proof {
                lemma_views_push(old(plan)@, c);
                lemma_push_is_add1(v0, c@);
            }
        }
    } else {
        proof {
            lemma_add_empty::<CallView>(v0);
        }
    }
}

/// The drag step: at most one call, for the highest-priority held button.
fn push_drag_step(plan: &mut Vec<DispatchCall>, e: Implementor, i: usize, input: &InputSnapshot)
    ensures
        views_of(final(plan)@) == views_of(old(plan)@) + (if e.draggable {
            spec_drag_calls(i, *input)
        } else {
            Seq::<CallView>::empty()
        }),
{
    let ghost v0 = views_of(old(plan)@);
    if e.draggable {
        if input.left.down {
            let c = DispatchCall::Drag {
                target: i,
                button: MouseButton::Left,
                delta: input.cursor_delta,
            };
            plan.push(c);
            proof {
                lemma_views_push(old(plan)@, c);
                lemma_push_is_add1(v0, c@);
            }
        } else if input.right.down {
            let c = DispatchCall::Drag {
                target: i,
                button: MouseButton::Right,
                delta: input.cursor_delta,
            };
            plan.push(c);
            proof {
                lemma_views_push(old(plan)@, c);
                lemma_push_is_add1(v0, c@);
            }
        } else if input.middle.down {
            let c = DispatchCall::Drag {
                target: i,
                button: MouseButton::Middle,
                delta: input.cursor_delta,
            };
            plan.push(c);
            proof {
                lemma_views_push(old(plan)@, c);
                lemma_push_is_add1(v0, c@);
            }
        } else {
            proof {
                lemma_add_empty::<CallView>(v0);
            }
        }
    } else {
        proof {
            lemma_add_empty::<CallView>(v0);
        }
    }
}

/// The collide step: the element's first box against every other element.
fn push_collide_step(
    plan: &mut Vec<DispatchCall>,
    elements: &Vec<Implementor>,
    boxes: &Vec<Vec<Rect>>,
    i: usize,
)
    requires
        boxes@.len() == elements@.len(),
        i < elements@.len(),
    ensures
        views_of(final(plan)@) == views_of(old(plan)@) + (if elements@[i as int].collideable {
            spec_collide_calls(i, elements@, boxes_views(boxes@))
        } else {
            Seq::<CallView>::empty()
        }),
{
    let ghost v0 = views_of(old(plan)@);
    proof {
        assert(boxes_views(boxes@)[i as int] == boxes@[i as int]@);
    }
    if elements[i].collideable {
        if boxes[i].len() > 0 {
            let first = boxes[i][0];
            let colliders = colliding_excluding(&first, elements, boxes, i);
            let c1 = DispatchCall::Collide { target: i, colliders };
            let ghost c1v = c1@;
            plan.push(c1);
            let c2 = DispatchCall::DrawCollisionBoxes { target: i };
            proof {
                lemma_views_push(old(plan)@, c1);
            }
            plan.push(c2);
            proof {
                lemma_views_push(old(plan)@.push(c1), c2);
                lemma_push_is_add2(v0, c1v, c2@);
            }
        } else {
            proof {
                lemma_add_empty::<CallView>(v0);
            }
        }
    } else {
        proof {
            lemma_add_empty::<CallView>(v0);
        }
    }
}

/// The update step: the generic per-frame simulation hook.
fn push_update_step(plan: &mut Vec<DispatchCall>, e: Implementor, i: usize, delta_t: i64)
    ensures
        views_of(final(plan)@) == views_of(old(plan)@) + maybe_call(
            e.updateable,
            CallView::Update { target: i, delta_t },
        ),
{
    push_maybe(plan, e.updateable, DispatchCall::Update { target: i, delta_t });
}

/// The display step: the mutable draw hook, then the immutable one.
fn push_display_step(plan: &mut Vec<DispatchCall>, e: Implementor, i: usize, delta_t: i64)
    ensures
        views_of(final(plan)@) == views_of(old(plan)@) + maybe_call(
            e.displayable,
            CallView::Draw { target: i, delta_t },
        ) + maybe_call(e.displayable, CallView::StaticDraw { target: i }),
{
    push_maybe(plan, e.displayable, DispatchCall::Draw { target: i, delta_t });
    push_maybe(plan, e.displayable, DispatchCall::StaticDraw { target: i });
}

/// A kind of call the laws below count in a plan.
pub enum CallQuery {
    /// One of the two hover callbacks, addressed to the given element.
    HoverFor(usize),
    /// A drag call whose button is not the left one.
    NonLeftDrag,
}

/// Whether one planned call is of the queried kind.
pub open spec fn call_matches(c: CallView, q: CallQuery) -> bool {
    match q {
        CallQuery::HoverFor(i) => {
            ||| c matches CallView::Hover { target, .. } && target == i
            ||| c matches CallView::NotHover { target, .. } && target == i
        },
        CallQuery::NonLeftDrag => c matches CallView::Drag { button, .. } && button
            != MouseButton::Left,
    }
}

/// How many calls of the queried kind a plan holds.
pub open spec fn call_count(s: Seq<CallView>, q: CallQuery) -> int
    decreases s.len(),
{
    if s.len() == 0 {
        0
    } else {
        call_count(s.drop_last(), q) + (if call_matches(s.last(), q) {
            1int
        } else {
            0int
        })
    }
}

/// Counting distributes over concatenation.
proof fn lemma_count_add(a: Seq<CallView>, b: Seq<CallView>, q: CallQuery)
    ensures
        call_count(a + b, q) == call_count(a, q) + call_count(b, q),
    decreases b.len(),
{
    if b.len() == 0 {
        assert(a + b =~= a);
    } else {
        assert((a + b).drop_last() =~= a + b.drop_last());
        lemma_count_add(a, b.drop_last(), q);
    }
}

/// Counting a fragment of at most one call.
proof fn lemma_count_maybe(cond: bool, c: CallView, q: CallQuery)
    ensures
        call_count(maybe_call(cond, c), q) == if cond && call_matches(c, q) {
            1int
        } else {
            0int
        },
{
    reveal_with_fuel(call_count, 2);
    if cond {
        assert(seq![c].drop_last() =~= Seq::<CallView>::empty());
    }
}

/// Counting a fragment of exactly one call.
proof fn lemma_count_one(c: CallView, q: CallQuery)
    ensures
        call_count(seq![c], q) == if call_matches(c, q) {
            1int
        } else {
            0int
        },
{
    lemma_count_maybe(true, c, q);
}

/// Counting a fragment of exactly two calls.
proof fn lemma_count_two(c1: CallView, c2: CallView, q: CallQuery)
    ensures
        call_count(seq![c1, c2], q) == (if call_matches(c1, q) {
            1int
        } else {
            0int
        }) + (if call_matches(c2, q) {
            1int
        } else {
            0int
        }),
{
    assert(seq![c1, c2].drop_last() =~= seq![c1]);
    lemma_count_one(c1, q);
}

/// A count is never negative.
proof fn lemma_count_nonneg(s: Seq<CallView>, q: CallQuery)
    ensures
        0 <= call_count(s, q),
    decreases s.len(),
{
    if s.len() > 0 {
        lemma_count_nonneg(s.drop_last(), q);
    }
}

/// A plan that counts no call of a kind holds no call of that kind.
proof fn lemma_count_zero(s: Seq<CallView>, q: CallQuery, k: int)
    requires
        call_count(s, q) == 0,
        0 <= k < s.len(),
    ensures
        !call_matches(s[k], q),
    decreases s.len(),
{
    lemma_count_nonneg(s.drop_last(), q);
    if k < s.len() - 1 {
        lemma_count_zero(s.drop_last(), q, k);
    }
}

/// The click step plans no hover and no drag call.
proof fn lemma_click_calls_count(i: usize, inp: InputSnapshot, q: CallQuery)
    ensures
        call_count(spec_click_calls(i, inp), q) == 0,
{
    let m1 = maybe_call(inp.left.pressed, CallView::MouseHeld { target: i, button: MouseButton::Left });
    let m2 = maybe_call(
        inp.middle.pressed,
        CallView::MouseHeld { target: i, button: MouseButton::Middle },
    );
    let m3 = maybe_call(inp.right.pressed, CallView::MouseHeld { target: i, button: MouseButton::Right });
    let m4 = maybe_call(inp.left.down, CallView::MouseDown { target: i, button: MouseButton::Left });
    let m5 = maybe_call(inp.middle.down, CallView::MouseDown { target: i, button: MouseButton::Middle });
    let m6 = maybe_call(inp.right.down, CallView::MouseDown { target: i, button: MouseButton::Right });
    let m7 = maybe_call(inp.left.released, CallView::MouseUp { target: i, button: MouseButton::Left });
    let m8 = maybe_call(
        inp.middle.released,
        CallView::MouseUp { target: i, button: MouseButton::Middle },
    );
    let m9 = maybe_call(inp.right.released, CallView::MouseUp { target: i, button: MouseButton::Right });
    lemma_count_maybe(inp.left.pressed, CallView::MouseHeld { target: i, button: MouseButton::Left }, q);
    lemma_count_maybe(
        inp.middle.pressed,
        CallView::MouseHeld { target: i, button: MouseButton::Middle },
        q,
    );
    lemma_count_maybe(inp.right.pressed, CallView::MouseHeld { target: i, button: MouseButton::Right }, q);
    lemma_count_maybe(inp.left.down, CallView::MouseDown { target: i, button: MouseButton::Left }, q);
    lemma_count_maybe(inp.middle.down, CallView::MouseDown { target: i, button: MouseButton::Middle }, q);
    lemma_count_maybe(inp.right.down, CallView::MouseDown { target: i, button: MouseButton::Right }, q);
    lemma_count_maybe(inp.left.released, CallView::MouseUp { target: i, button: MouseButton::Left }, q);
    lemma_count_maybe(
        inp.middle.released,
        CallView::MouseUp { target: i, button: MouseButton::Middle },
        q,
    );
    lemma_count_maybe(inp.right.released, CallView::MouseUp { target: i, button: MouseButton::Right }, q);
    lemma_count_add(m1, m2, q);
    lemma_count_add(m1 + m2, m3, q);
    lemma_count_add(m1 + m2 + m3, m4, q);
    lemma_count_add(m1 + m2 + m3 + m4, m5, q);
    lemma_count_add(m1 + m2 + m3 + m4 + m5, m6, q);
    lemma_count_add(m1 + m2 + m3 + m4 + m5 + m6, m7, q);
    lemma_count_add(m1 + m2 + m3 + m4 + m5 + m6 + m7, m8, q);
    lemma_count_add(m1 + m2 + m3 + m4 + m5 + m6 + m7 + m8, m9, q);
}

/// The count the laws expect of one element's frame calls: one hover call
/// when the element is the queried one and hoverable; never an
/// off-priority drag call while the left button is held.
pub open spec fn spec_entity_count(q: CallQuery, e: Implementor, j: usize) -> int {
    match q {
        CallQuery::HoverFor(i) => if j == i && e.hoverable {
            1int
        } else {
            0int
        },
        CallQuery::NonLeftDrag => 0,
    }
}

/// Counting the queried calls of one element's frame calls.
#[verifier::rlimit(100)]
proof fn lemma_entity_count(
    elements: Seq<Implementor>,
    boxes: Seq<Seq<Rect>>,
    inp: InputSnapshot,
    delta_t: i64,
    j: usize,
    q: CallQuery,
)
    requires
        j < elements.len(),
        q is NonLeftDrag ==> inp.left.down,
    ensures
        call_count(spec_entity_calls(elements, boxes, inp, delta_t, j), q) == spec_entity_count(
            q,
            elements[j as int],
            j,
        ),
{
    let e = elements[j as int];
    let s1 = if e.clickable {
        spec_click_calls(j, inp)
    } else {
        Seq::<CallView>::empty()
    };
    let s2 = maybe_call(e.inputtable, CallView::ProcessInput { target: j });
    let s3 = if e.hoverable {
        spec_hover_calls(j, inp, boxes[j as int])
    } else {
        Seq::<CallView>::empty()
    };
    let s4 = if e.draggable {
        spec_drag_calls(j, inp)
    } else {
        Seq::<CallView>::empty()
    };
    let s5 = if e.collideable {
        spec_collide_calls(j, elements, boxes)
    } else {
        Seq::<CallView>::empty()
    };
    let s6 = maybe_call(e.updateable, CallView::Update { target: j, delta_t });
    let s7 = maybe_call(e.displayable, CallView::Draw { target: j, delta_t });
    let s8 = maybe_call(e.displayable, CallView::StaticDraw { target: j });
    if e.clickable {
        lemma_click_calls_count(j, inp, q);
    }
    assert(call_count(s1, q) == 0);
    lemma_count_maybe(e.inputtable, CallView::ProcessInput { target: j }, q);
    assert(call_count(s2, q) == 0);
    if e.hoverable {
        lemma_count_one(CallView::Hover { target: j, position: inp.cursor }, q);
        lemma_count_one(CallView::NotHover { target: j, position: inp.cursor }, q);
    }
    assert(call_count(s3, q) == spec_entity_count(q, e, j));
    if e.draggable && inp.left.down {
        lemma_count_one(
            CallView::Drag { target: j, button: MouseButton::Left, delta: inp.cursor_delta },
            q,
        );
    }
    if e.draggable && !inp.left.down {
        lemma_count_one(
            CallView::Drag { target: j, button: MouseButton::Right, delta: inp.cursor_delta },
            q,
        );
        lemma_count_one(
            CallView::Drag { target: j, button: MouseButton::Middle, delta: inp.cursor_delta },
            q,
        );
    }
    assert(call_count(s4, q) == 0);
    if e.collideable && boxes[j as int].len() != 0 {
        lemma_count_two(
            CallView::Collide {
                target: j,
                colliders: spec_colliding_excluding(boxes[j as int][0], elements, boxes, j as int),
            },
            CallView::DrawCollisionBoxes { target: j },
            q,
        );
    }
    assert(call_count(s5, q) == 0);
    lemma_count_maybe(e.updateable, CallView::Update { target: j, delta_t }, q);
    assert(call_count(s6, q) == 0);
    lemma_count_maybe(e.displayable, CallView::Draw { target: j, delta_t }, q);
    assert(call_count(s7, q) == 0);
    lemma_count_maybe(e.displayable, CallView::StaticDraw { target: j }, q);
    assert(call_count(s8, q) == 0);
    lemma_count_add(s1, s2, q);
    lemma_count_add(s1 + s2, s3, q);
    lemma_count_add(s1 + s2 + s3, s4, q);
    lemma_count_add(s1 + s2 + s3 + s4, s5, q);
    lemma_count_add(s1 + s2 + s3 + s4 + s5, s6, q);
    lemma_count_add(s1 + s2 + s3 + s4 + s5 + s6, s7, q);
    lemma_count_add(s1 + s2 + s3 + s4 + s5 + s6 + s7, s8, q);
    assert(spec_entity_calls(elements, boxes, inp, delta_t, j) == s1 + s2 + s3 + s4 + s5 + s6 + s7
        + s8);
}

/// Counting the queried calls of the plan of the first `k` elements.
proof fn lemma_plan_count(
    elements: Seq<Implementor>,
    boxes: Seq<Seq<Rect>>,
    inp: InputSnapshot,
    delta_t: i64,
    k: int,
    q: CallQuery,
)
    requires
        0 <= k <= elements.len() <= usize::MAX,
        q is NonLeftDrag ==> inp.left.down,
    ensures
        call_count(spec_plan_upto(elements, boxes, inp, delta_t, k), q) == (match q {
            CallQuery::HoverFor(i) => if (i as int) < k && elements[i as int].hoverable {
                1int
            } else {
                0int
            },
            CallQuery::NonLeftDrag => 0,
        }),
    decreases k,
{
    reveal_with_fuel(call_count, 1);
    if k > 0 {
        lemma_plan_count(elements, boxes, inp, delta_t, k - 1, q);
        lemma_entity_count(elements, boxes, inp, delta_t, (k - 1) as usize, q);
        lemma_count_add(
            spec_plan_upto(elements, boxes, inp, delta_t, k - 1),
            spec_entity_calls(elements, boxes, inp, delta_t, (k - 1) as usize),
            q,
        );
    }
}

/// Exactly one of the two hover callbacks is planned for every hoverable
/// element in every frame.
pub proof fn lemma_exactly_one_hover(
    elements: Seq<Implementor>,
    boxes: Seq<Seq<Rect>>,
    inp: InputSnapshot,
    delta_t: i64,
    i: usize,
)
    requires
        i < elements.len() <= usize::MAX,
        elements[i as int].hoverable,
    ensures
        call_count(spec_frame_plan(elements, boxes, inp, delta_t), CallQuery::HoverFor(i)) == 1,
{
    lemma_plan_count(
        elements,
        boxes,
        inp,
        delta_t,
        elements.len() as int,
        CallQuery::HoverFor(i),
    );
}

/// Drag priority: while the left button is held, every drag call of the
/// frame's plan uses the left button, whatever other buttons are held.
pub proof fn lemma_drag_priority(
    elements: Seq<Implementor>,
    boxes: Seq<Seq<Rect>>,
    inp: InputSnapshot,
    delta_t: i64,
)
    requires
        elements.len() <= usize::MAX,
        inp.left.down,
    ensures
        call_count(spec_frame_plan(elements, boxes, inp, delta_t), CallQuery::NonLeftDrag) == 0,
        forall|k: int|
            0 <= k < spec_frame_plan(elements, boxes, inp, delta_t).len() ==> (
            #[trigger] spec_frame_plan(elements, boxes, inp, delta_t)[k] matches CallView::Drag {
                button,
                ..
            } ==> button == MouseButton::Left),
{
    let plan = spec_frame_plan(elements, boxes, inp, delta_t);
    lemma_plan_count(
        elements,
        boxes,
        inp,
        delta_t,
        elements.len() as int,
        CallQuery::NonLeftDrag,
    );
    assert forall|k: int| 0 <= k < plan.len() implies (#[trigger] plan[k] matches CallView::Drag {
        button,
        ..
    } ==> button == MouseButton::Left) by {
        lemma_count_zero(plan, CallQuery::NonLeftDrag, k);
    }
}

/// The dispatcher is a pure function of the scene's elements, the reported
/// boxes and one input snapshot: two dispatches over the same state and
/// snapshot plan the identical calls.
pub proof fn lemma_dispatch_deterministic(
    elements1: Seq<Implementor>,
    boxes1: Seq<Seq<Rect>>,
    inp1: InputSnapshot,
    elements2: Seq<Implementor>,
    boxes2: Seq<Seq<Rect>>,
    inp2: InputSnapshot,
    delta_t: i64,
)
    requires
        elements1 == elements2,
        boxes1 == boxes2,
        inp1 == inp2,
    ensures
        spec_frame_plan(elements1, boxes1, inp1, delta_t) == spec_frame_plan(
            elements2,
            boxes2,
            inp2,
            delta_t,
        ),
{
}

} // verus!
