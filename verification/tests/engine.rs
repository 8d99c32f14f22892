use scene_engine::animation::{Animation, AnimationError};
use scene_engine::collide::{colliding, is_cursor_over, is_cursor_over_any};
use scene_engine::driver::{transition_calls, DriverCall};
use scene_engine::geom::{Rect, Vec2};
use scene_engine::input::{ButtonSnapshot, InputSnapshot, MouseButton};
use scene_engine::scene::{DispatchCall, Scene};
use scene_engine::traits::Implementor;

fn idle_input() -> InputSnapshot {
    InputSnapshot::idle()
}

fn collideable_only() -> Implementor {
    let mut e = Implementor::none();
    e.collideable = true;
    e
}

#[test]
fn rect_contains_edges() {
    let r = Rect::new(1, 1, 2, 2);
    assert!(r.contains(Vec2::new(1, 1)));
    assert!(r.contains(Vec2::new(3, 3)));
    assert!(r.contains(Vec2::new(2, 2)));
    assert!(!r.contains(Vec2::new(4, 2)));
    assert!(!r.contains(Vec2::new(0, 2)));
}

#[test]
fn rect_overlap_touching_counts() {
    let a = Rect::new(0, 0, 10, 10);
    assert!(a.overlaps(&Rect::new(5, 5, 10, 10)));
    assert!(a.overlaps(&Rect::new(10, 0, 5, 5)));
    assert!(!a.overlaps(&Rect::new(11, 0, 5, 5)));
}

#[test]
fn cursor_over_any_checks_every_box() {
    let boxes = vec![Rect::new(0, 0, 1, 1), Rect::new(10, 10, 2, 2)];
    assert!(is_cursor_over_any(&boxes, Vec2::new(11, 11)));
    assert!(!is_cursor_over_any(&boxes, Vec2::new(5, 5)));
    assert!(is_cursor_over(&Rect::new(0, 0, 1, 1), Vec2::new(0, 0)));
}

#[test]
fn colliding_keeps_order_and_skips_non_collideable() {
    let lhs = Rect::new(0, 0, 100, 100);
    let mut plain = Implementor::none();
    plain.hoverable = true;
    let elements = vec![collideable_only(), plain, collideable_only(), collideable_only()];
    let boxes = vec![
        vec![Rect::new(1, 1, 5, 5)],
        vec![Rect::new(2, 2, 5, 5)],
        vec![Rect::new(200, 200, 5, 5)],
        vec![Rect::new(3, 3, 5, 5)],
    ];
    // index 1 lacks the capability, index 2 does not overlap
    assert_eq!(colliding(&lhs, &elements, &boxes), vec![0usize, 3usize]);
}

#[test]
fn colliding_empty_boxes_never_hit() {
    let lhs = Rect::new(0, 0, 100, 100);
    let elements = vec![collideable_only()];
    let boxes: Vec<Vec<Rect>> = vec![vec![]];
    assert_eq!(colliding(&lhs, &elements, &boxes), Vec::<usize>::new());
}

#[test]
fn animation_empty_frames_fails() {
    let r = Animation::from(vec![], 5, true);
    assert_eq!(r.err(), Some(AnimationError::EmptyAnimation));
}

#[test]
fn animation_starts_at_zero() {
    let a = Animation::from(vec![7, 8, 9], 5, false).unwrap();
    assert_eq!(a.get_current_frame(), 0);
}

#[test]
fn animation_repeating_follows_floor_formula() {
    // duration 4, 3 frames; after total time 4 * k the index is k mod 3
    let mut a = Animation::from(vec![10, 11, 12], 4, true).unwrap();
    assert_eq!(a.get_frame(4), 11);
    assert_eq!(a.get_frame(4), 12);
    assert_eq!(a.get_frame(4), 10);
    assert_eq!(a.get_current_frame(), 0);
}

#[test]
fn animation_clamps_on_last_frame() {
    let mut a = Animation::from(vec![10, 11], 3, false).unwrap();
    assert_eq!(a.get_frame(3), 11);
    assert_eq!(a.get_frame(3), 11);
    assert_eq!(a.get_frame(3), 11);
    assert_eq!(a.get_current_frame(), 1);
}

#[test]
fn animation_keeps_overshoot_phase() {
    // duration 10: after 7 the countdown is 3; the next 3 drains it exactly
    let mut a = Animation::from(vec![1, 2, 3], 10, true).unwrap();
    assert_eq!(a.get_frame(7), 1);
    assert_eq!(a.get_frame(3), 2);
}

#[test]
fn register_keeps_insertion_order() {
    let mut s = Scene::new();
    assert_eq!(s.elements.len(), 0);
    let mut a = Implementor::none();
    a.updateable = true;
    s.register(a);
    s.register(collideable_only());
    assert_eq!(s.elements.len(), 2);
    assert!(s.elements[0].updateable);
    assert!(s.elements[1].collideable);
}

#[test]
fn scene_collide_step_reports_mutual_colliders() {
    // three elements A, B, C: A and B overlap, C stands apart
    let mut s = Scene::new();
    s.register(collideable_only());
    s.register(collideable_only());
    s.register(collideable_only());
    let boxes = vec![
        vec![Rect::new(0, 0, 10, 10)],
        vec![Rect::new(5, 5, 10, 10)],
        vec![Rect::new(100, 100, 10, 10)],
    ];
    let plan = s.frame_progression(1, &idle_input(), &boxes);
    let collide_calls: Vec<(usize, Vec<usize>)> = plan
        .iter()
        .filter_map(|c| match c {
            DispatchCall::Collide { target, colliders } => Some((*target, colliders.clone())),
            _ => None,
        })
        .collect();
    assert_eq!(
        collide_calls,
        vec![(0, vec![1]), (1, vec![0]), (2, vec![])]
    );
}

#[test]
fn hover_fires_exactly_one_callback() {
    let mut s = Scene::new();
    let mut e = Implementor::none();
    e.hoverable = true;
    e.collideable = false;
    s.register(e);
    s.register(e);
    let boxes = vec![vec![Rect::new(0, 0, 10, 10)], vec![Rect::new(50, 50, 5, 5)]];
    let mut input = idle_input();
    input.cursor = Vec2::new(5, 5);
    let plan = s.frame_progression(1, &input, &boxes);
    assert_eq!(plan.len(), 2);
    assert!(matches!(plan[0], DispatchCall::Hover { target: 0, .. }));
    assert!(matches!(plan[1], DispatchCall::NotHover { target: 1, .. }));
}

#[test]
fn drag_prefers_left_button() {
    let mut s = Scene::new();
    let mut e = Implementor::none();
    e.draggable = true;
    s.register(e);
    let boxes = vec![vec![]];
    let mut input = idle_input();
    input.left.down = true;
    input.right.down = true;
    input.cursor_delta = Vec2::new(3, -2);
    let plan = s.frame_progression(1, &input, &boxes);
    assert_eq!(plan.len(), 1);
    match &plan[0] {
        DispatchCall::Drag { target, button, delta } => {
            assert_eq!(*target, 0);
            assert_eq!(*button, MouseButton::Left);
            assert_eq!(*delta, Vec2::new(3, -2));
        }
        other => panic!("unexpected call {:?}", other),
    }
}

#[test]
fn drag_falls_back_right_then_middle() {
    let mut s = Scene::new();
    let mut e = Implementor::none();
    e.draggable = true;
    s.register(e);
    let boxes = vec![vec![]];
    let mut input = idle_input();
    input.right.down = true;
    input.middle.down = true;
    let plan = s.frame_progression(1, &input, &boxes);
    assert!(matches!(
        plan[0],
        DispatchCall::Drag { button: MouseButton::Right, .. }
    ));
}

#[test]
fn click_step_wires_press_to_held() {
    // the press transition goes to the held callback, the held level to the
    // down callback, the release to the up callback
    let mut s = Scene::new();
    let mut e = Implementor::none();
    e.clickable = true;
    s.register(e);
    let boxes = vec![vec![]];
    let mut input = idle_input();
    input.left = ButtonSnapshot { pressed: true, down: true, released: false };
    input.middle = ButtonSnapshot { pressed: false, down: false, released: true };
    let plan = s.frame_progression(1, &input, &boxes);
    assert_eq!(plan.len(), 3);
    assert!(matches!(
        plan[0],
        DispatchCall::MouseHeld { target: 0, button: MouseButton::Left }
    ));
    assert!(matches!(
        plan[1],
        DispatchCall::MouseDown { target: 0, button: MouseButton::Left }
    ));
    assert!(matches!(
        plan[2],
        DispatchCall::MouseUp { target: 0, button: MouseButton::Middle }
    ));
}

#[test]
fn dispatch_step_order_is_fixed() {
    let mut s = Scene::new();
    let mut e = Implementor::none();
    e.clickable = true;
    e.collideable = true;
    e.displayable = true;
    e.draggable = true;
    e.hoverable = true;
    e.inputtable = true;
    e.updateable = true;
    s.register(e);
    let boxes = vec![vec![Rect::new(0, 0, 4, 4)]];
    let mut input = idle_input();
    input.left.down = true;
    input.cursor = Vec2::new(2, 2);
    let plan = s.frame_progression(9, &input, &boxes);
    assert!(matches!(plan[0], DispatchCall::MouseDown { .. }));
    assert!(matches!(plan[1], DispatchCall::ProcessInput { .. }));
    assert!(matches!(plan[2], DispatchCall::Hover { .. }));
    assert!(matches!(plan[3], DispatchCall::Drag { .. }));
    assert!(matches!(plan[4], DispatchCall::Collide { .. }));
    assert!(matches!(plan[5], DispatchCall::DrawCollisionBoxes { .. }));
    assert!(matches!(plan[6], DispatchCall::Update { target: 0, delta_t: 9 }));
    assert!(matches!(plan[7], DispatchCall::Draw { target: 0, delta_t: 9 }));
    assert!(matches!(plan[8], DispatchCall::StaticDraw { target: 0 }));
    assert_eq!(plan.len(), 9);
}

#[test]
fn dispatch_is_deterministic() {
    let mut s = Scene::new();
    let mut e = Implementor::none();
    e.hoverable = true;
    e.collideable = true;
    s.register(e);
    let boxes = vec![vec![Rect::new(0, 0, 4, 4)]];
    let input = idle_input();
    let p1 = s.frame_progression(2, &input, &boxes);
    let p2 = s.frame_progression(2, &input, &boxes);
    assert_eq!(p1, p2);
}

#[test]
fn scene_switch_exit_precedes_enter() {
    assert_eq!(
        transition_calls(true),
        vec![DriverCall::ExitOld, DriverCall::EnterNew]
    );
    assert_eq!(transition_calls(false), Vec::<DriverCall>::new());
}
