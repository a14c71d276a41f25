//! Dispatching of controller input to the first panel that a ray meets.

use clearxr_space::geometry::{Quat, Vec3};
use clearxr_space::input::{
    aim, Button, ControllerState, InputDispatcher, InputEvent, PanelTarget, RayHit,
};
use clearxr_space::panel::{Hand, PanelAnchor, PanelId, PanelTransform};
use clearxr_space::scalar::Scalar;

/// The number that a bit pattern stands for.
fn num(value: Scalar) -> f32 {
    f32::from_bits(value.to_bits())
}

fn s(value: f32) -> Scalar {
    Scalar::from_bits(value.to_bits())
}

fn v3(x: f32, y: f32, z: f32) -> Vec3 {
    Vec3 { x: s(x), y: s(y), z: s(z) }
}

/// A panel at the given center that faces +Z: a ray towards -Z meets it.
fn make_panel(center: Vec3, width: f32, height: f32) -> PanelTransform {
    PanelTransform {
        center,
        right_dir: v3(1.0, 0.0, 0.0),
        up_dir: v3(0.0, 1.0, 0.0),
        width: s(width),
        height: s(height),
        opacity: s(1.0),
        anchor: PanelAnchor::World,
        grabbable: false,
    }
}

#[test]
fn controller_state_default_inactive() {
    let state = ControllerState::default();
    assert!(!state.left.active);
    assert!(!state.right.active);
}

#[test]
fn hand_accessor() {
    let mut state = ControllerState::default();
    state.left.active = true;
    state.right.trigger = s(0.8);
    assert!(state.hand(Hand::Left).active);
    assert!(!state.hand(Hand::Right).active);
    assert!((num(state.hand(Hand::Right).trigger) - 0.8).abs() < 0.001);
}

#[test]
fn input_event_variants() {
    // Just verify all variants construct properly
    let events: Vec<InputEvent> = vec![
        InputEvent::PointerMove { hand: Hand::Right, u: s(0.5), v: s(0.5), distance: s(2.0) },
        InputEvent::PointerDown { hand: Hand::Right, u: s(0.5), v: s(0.5) },
        InputEvent::PointerUp { hand: Hand::Right, u: s(0.5), v: s(0.5) },
        InputEvent::GrabStart { hand: Hand::Left, grip_pos: Vec3::zero(), grip_rot: Quat::identity() },
        InputEvent::GrabMove { hand: Hand::Left, grip_pos: v3(1.0, 1.0, 1.0), grip_rot: Quat::identity() },
        InputEvent::GrabEnd { hand: Hand::Left },
        InputEvent::ButtonPress { hand: Hand::Right, button: Button::A },
        InputEvent::ButtonRelease { hand: Hand::Right, button: Button::A },
        InputEvent::ThumbstickMove { hand: Hand::Left, x: s(0.5), y: s(-0.3) },
        InputEvent::TextInput { text: "hello".to_string() },
    ];
    assert_eq!(events.len(), 10);
}

/// Makes a ControllerState with the right hand active, aiming from
/// `aim_pos` in direction `aim_dir` with given trigger value.
fn right_hand_state(aim_pos: Vec3, aim_dir: Vec3, trigger: f32) -> ControllerState {
    let mut state = ControllerState::default();
    state.right.active = true;
    state.right.aim_pos = aim_pos;
    state.right.aim_dir = aim_dir;
    state.right.trigger = s(trigger);
    state
}

fn left_hand_state(aim_pos: Vec3, aim_dir: Vec3, trigger: f32) -> ControllerState {
    let mut state = ControllerState::default();
    state.left.active = true;
    state.left.aim_pos = aim_pos;
    state.left.aim_dir = aim_dir;
    state.left.trigger = s(trigger);
    state
}

#[test]
fn mod_dispatcher_aim_at_panel_generates_pointer_move() {
    let mut dispatcher = InputDispatcher::new();
    let panel = make_panel(v3(0.0, 0.0, -2.0), 2.0, 2.0);
    let panels: Vec<(PanelId, &PanelTransform)> = vec![(PanelId::new(1), &panel)];
    let state = right_hand_state(Vec3::zero(), v3(0.0, 0.0, -1.0), 0.0);

    let events = dispatcher.process(&state, &panels);

    assert_eq!(events.len(), 1);
    let (pid, ref evt) = events[0];
    assert_eq!(pid, PanelId::new(1));
    match evt {
        InputEvent::PointerMove { hand, u, v, .. } => {
            assert_eq!(*hand, Hand::Right);
            assert!((num(*u) - 0.5).abs() < 0.01);
            assert!((num(*v) - 0.5).abs() < 0.01);
        }
        _ => panic!("Expected PointerMove, got {:?}", evt),
    }
}

#[test]
fn mod_dispatcher_trigger_pull_generates_pointer_down() {
    let mut dispatcher = InputDispatcher::new();
    let panel = make_panel(v3(0.0, 0.0, -2.0), 2.0, 2.0);
    let panels: Vec<(PanelId, &PanelTransform)> = vec![(PanelId::new(1), &panel)];

    // Frame 1: no trigger (establish prev state)
    let state1 = right_hand_state(Vec3::zero(), v3(0.0, 0.0, -1.0), 0.0);
    dispatcher.process(&state1, &panels);

    // Frame 2: trigger pulled
    let state2 = right_hand_state(Vec3::zero(), v3(0.0, 0.0, -1.0), 1.0);
    let events = dispatcher.process(&state2, &panels);

    assert_eq!(events.len(), 2); // PointerMove + PointerDown
    let has_down = events.iter().any(|(_, e)| matches!(e, InputEvent::PointerDown { .. }));
    assert!(has_down, "Expected PointerDown event");
}

#[test]
fn mod_dispatcher_trigger_release_generates_pointer_up() {
    let mut dispatcher = InputDispatcher::new();
    let panel = make_panel(v3(0.0, 0.0, -2.0), 2.0, 2.0);
    let panels: Vec<(PanelId, &PanelTransform)> = vec![(PanelId::new(1), &panel)];

    // Frame 1: trigger held (establish prev state as pressed)
    let state1 = right_hand_state(Vec3::zero(), v3(0.0, 0.0, -1.0), 1.0);
    dispatcher.process(&state1, &panels);

    // Frame 2: trigger released
    let state2 = right_hand_state(Vec3::zero(), v3(0.0, 0.0, -1.0), 0.0);
    let events = dispatcher.process(&state2, &panels);

    assert_eq!(events.len(), 2); // PointerMove + PointerUp
    let has_up = events.iter().any(|(_, e)| matches!(e, InputEvent::PointerUp { .. }));
    assert!(has_up, "Expected PointerUp event");
}

#[test]
fn mod_dispatcher_aim_at_nothing_generates_no_events() {
    let mut dispatcher = InputDispatcher::new();
    let panel = make_panel(v3(0.0, 0.0, -2.0), 2.0, 2.0);
    let panels: Vec<(PanelId, &PanelTransform)> = vec![(PanelId::new(1), &panel)];

    // Aim way off to the side — miss the panel
    let state = right_hand_state(Vec3::zero(), v3(1.0, 0.0, 0.0), 0.0);
    let events = dispatcher.process(&state, &panels);

    assert!(events.is_empty(), "Expected no events when aiming at nothing");
}

#[test]
fn mod_dispatcher_front_to_back_priority() {
    let mut dispatcher = InputDispatcher::new();
    // Close panel at z=-1, far panel at z=-3, both centered on the aim ray
    let close_panel = make_panel(v3(0.0, 0.0, -1.0), 2.0, 2.0);
    let far_panel = make_panel(v3(0.0, 0.0, -3.0), 2.0, 2.0);
    // Front-to-back order: close first
    let panels: Vec<(PanelId, &PanelTransform)> = vec![(PanelId::new(10), &close_panel), (PanelId::new(20), &far_panel)];

    let state = right_hand_state(Vec3::zero(), v3(0.0, 0.0, -1.0), 0.0);
    let events = dispatcher.process(&state, &panels);

    assert_eq!(events.len(), 1);
    assert_eq!(events[0].0, PanelId::new(10), "Closer panel should receive the event");
}

#[test]
fn mod_dispatcher_both_hands_independent() {
    let mut dispatcher = InputDispatcher::new();
    // Two panels side by side
    let left_panel = make_panel(v3(-2.0, 0.0, -2.0), 2.0, 2.0);
    let right_panel = make_panel(v3(2.0, 0.0, -2.0), 2.0, 2.0);
    let panels: Vec<(PanelId, &PanelTransform)> = vec![(PanelId::new(1), &left_panel), (PanelId::new(2), &right_panel)];

    // Both hands active, each aiming at different panel
    let mut state = ControllerState::default();
    state.left.active = true;
    state.left.aim_pos = v3(-2.0, 0.0, 0.0);
    state.left.aim_dir = v3(0.0, 0.0, -1.0);
    state.left.trigger = s(0.0);

    state.right.active = true;
    state.right.aim_pos = v3(2.0, 0.0, 0.0);
    state.right.aim_dir = v3(0.0, 0.0, -1.0);
    state.right.trigger = s(0.0);

    let events = dispatcher.process(&state, &panels);

    // Should get PointerMove for each hand on its respective panel
    assert_eq!(events.len(), 2);

    let left_event = events.iter().find(|(_, e)| matches!(e, InputEvent::PointerMove { hand: Hand::Left, .. }));
    let right_event = events.iter().find(|(_, e)| matches!(e, InputEvent::PointerMove { hand: Hand::Right, .. }));

    assert!(left_event.is_some(), "Left hand should generate PointerMove");
    assert!(right_event.is_some(), "Right hand should generate PointerMove");
    assert_eq!(left_event.unwrap().0, PanelId::new(1), "Left hand should hit left panel");
    assert_eq!(right_event.unwrap().0, PanelId::new(2), "Right hand should hit right panel");
}

#[test]
fn mod_dispatcher_inactive_hand_generates_no_events() {
    let mut dispatcher = InputDispatcher::new();
    let panel = make_panel(v3(0.0, 0.0, -2.0), 2.0, 2.0);
    let panels: Vec<(PanelId, &PanelTransform)> = vec![(PanelId::new(1), &panel)];

    // Default state: both hands inactive
    let state = ControllerState::default();
    let events = dispatcher.process(&state, &panels);

    assert!(events.is_empty());
}

#[test]
fn mod_dispatcher_trigger_held_no_repeat_down() {
    let mut dispatcher = InputDispatcher::new();
    let panel = make_panel(v3(0.0, 0.0, -2.0), 2.0, 2.0);
    let panels: Vec<(PanelId, &PanelTransform)> = vec![(PanelId::new(1), &panel)];

    // Frame 1: trigger pulled (rising edge)
    let state1 = right_hand_state(Vec3::zero(), v3(0.0, 0.0, -1.0), 1.0);
    let events1 = dispatcher.process(&state1, &panels);
    assert!(events1.iter().any(|(_, e)| matches!(e, InputEvent::PointerDown { .. })));

    // Frame 2: trigger still held — should NOT get another PointerDown
    let state2 = right_hand_state(Vec3::zero(), v3(0.0, 0.0, -1.0), 1.0);
    let events2 = dispatcher.process(&state2, &panels);
    assert_eq!(events2.len(), 1, "Should only get PointerMove, no repeated PointerDown");
    assert!(matches!(events2[0].1, InputEvent::PointerMove { .. }));
}

#[test]
fn mod_trigger_held_does_not_repeat_click() {
    // Verify that holding trigger for multiple frames only produces one PointerDown.
    // One trigger press is one logical click.
    let mut dispatcher = InputDispatcher::new();
    let panel = make_panel(v3(0.0, 0.0, -2.0), 2.0, 2.0);
    let panels: Vec<(PanelId, &PanelTransform)> = vec![(PanelId::new(1), &panel)];

    // Frame 1: no trigger (establish baseline)
    let state0 = right_hand_state(Vec3::zero(), v3(0.0, 0.0, -1.0), 0.0);
    dispatcher.process(&state0, &panels);

    // Frame 2: trigger pulled — rising edge, should get exactly one PointerDown
    let state1 = right_hand_state(Vec3::zero(), v3(0.0, 0.0, -1.0), 1.0);
    let events1 = dispatcher.process(&state1, &panels);
    let down_count_1 = events1.iter().filter(|(_, e)| matches!(e, InputEvent::PointerDown { .. })).count();
    assert_eq!(down_count_1, 1, "First press frame should produce exactly one PointerDown");

    // Frame 3-6: trigger still held — should NOT get any more PointerDown
    for frame in 3..=6 {
        let state = right_hand_state(Vec3::zero(), v3(0.0, 0.0, -1.0), 1.0);
        let events = dispatcher.process(&state, &panels);
        let down_count = events.iter().filter(|(_, e)| matches!(e, InputEvent::PointerDown { .. })).count();
        assert_eq!(down_count, 0, "Frame {}: held trigger must not produce PointerDown", frame);
        // Should still get PointerMove (hover tracking continues)
        let move_count = events.iter().filter(|(_, e)| matches!(e, InputEvent::PointerMove { .. })).count();
        assert_eq!(move_count, 1, "Frame {}: should still get PointerMove while held", frame);
    }

    // Frame 7: release trigger
    let state_release = right_hand_state(Vec3::zero(), v3(0.0, 0.0, -1.0), 0.0);
    let events_release = dispatcher.process(&state_release, &panels);
    let up_count = events_release.iter().filter(|(_, e)| matches!(e, InputEvent::PointerUp { .. })).count();
    assert_eq!(up_count, 1, "Release should produce exactly one PointerUp");

    // Frame 8: press again — should get another PointerDown (new click)
    let state_repress = right_hand_state(Vec3::zero(), v3(0.0, 0.0, -1.0), 1.0);
    let events_repress = dispatcher.process(&state_repress, &panels);
    let down_count_re = events_repress.iter().filter(|(_, e)| matches!(e, InputEvent::PointerDown { .. })).count();
    assert_eq!(down_count_re, 1, "Re-press after release should produce new PointerDown");
}

#[test]
fn mod_dispatcher_left_hand_trigger_edge_detection() {
    let mut dispatcher = InputDispatcher::new();
    let panel = make_panel(v3(0.0, 0.0, -2.0), 2.0, 2.0);
    let panels: Vec<(PanelId, &PanelTransform)> = vec![(PanelId::new(1), &panel)];

    // Frame 1: left hand, no trigger
    let state1 = left_hand_state(Vec3::zero(), v3(0.0, 0.0, -1.0), 0.0);
    dispatcher.process(&state1, &panels);

    // Frame 2: left hand, trigger pulled
    let state2 = left_hand_state(Vec3::zero(), v3(0.0, 0.0, -1.0), 1.0);
    let events = dispatcher.process(&state2, &panels);

    let has_down = events.iter().any(|(_, e)| matches!(e, InputEvent::PointerDown { hand: Hand::Left, .. }));
    assert!(has_down, "Left hand trigger should generate PointerDown");
}

// ---- Grabbing ----

/// Makes a ControllerState with right hand active, aiming, with grip/squeeze.
fn right_hand_grip_state(
    aim_pos: Vec3,
    aim_dir: Vec3,
    squeeze: f32,
    grip_pos: Vec3,
    grip_rot: Quat,
) -> ControllerState {
    let mut state = ControllerState::default();
    state.right.active = true;
    state.right.aim_pos = aim_pos;
    state.right.aim_dir = aim_dir;
    state.right.squeeze = s(squeeze);
    state.right.grip_pos = grip_pos;
    state.right.grip_rot = grip_rot;
    state
}

#[test]
fn mod_dispatcher_grip_in_margin_starts_grab() {
    let mut dispatcher = InputDispatcher::new();
    // Panel centered at z=-2, 2x2. Aim at the left edge (u ~ 0.05).
    let panel = make_panel(v3(0.0, 0.0, -2.0), 2.0, 2.0);
    let panels: Vec<(PanelId, &PanelTransform)> = vec![(PanelId::new(1), &panel)];

    // Aim at left edge: x = -0.9 maps to u ~ 0.05
    let state = right_hand_grip_state(
        v3(-0.9, 0.0, 0.0),
        v3(0.0, 0.0, -1.0),
        0.9,
        v3(-0.5, 0.0, 0.0),
        Quat::identity(),
    );
    let events = dispatcher.process(&state, &panels);

    let has_grab_start = events.iter().any(|(_, e)| matches!(e, InputEvent::GrabStart { .. }));
    assert!(has_grab_start, "Grip in margin zone should emit GrabStart");
}

#[test]
fn mod_dispatcher_grip_center_no_grab() {
    let mut dispatcher = InputDispatcher::new();
    let panel = make_panel(v3(0.0, 0.0, -2.0), 2.0, 2.0);
    let panels: Vec<(PanelId, &PanelTransform)> = vec![(PanelId::new(1), &panel)];

    // Aim at center: u ~ 0.5, v ~ 0.5
    let state = right_hand_grip_state(
        Vec3::zero(),
        v3(0.0, 0.0, -1.0),
        0.9,
        Vec3::zero(),
        Quat::identity(),
    );
    let events = dispatcher.process(&state, &panels);

    let has_grab_start = events.iter().any(|(_, e)| matches!(e, InputEvent::GrabStart { .. }));
    assert!(!has_grab_start, "Grip in center should NOT emit GrabStart");
}

#[test]
fn mod_dispatcher_grab_move_follows_controller() {
    let mut dispatcher = InputDispatcher::new();
    let panel = make_panel(v3(0.0, 0.0, -2.0), 2.0, 2.0);
    let panels: Vec<(PanelId, &PanelTransform)> = vec![(PanelId::new(1), &panel)];

    // Frame 1: grip in margin -> GrabStart
    let state1 = right_hand_grip_state(
        v3(-0.9, 0.0, 0.0),
        v3(0.0, 0.0, -1.0),
        0.9,
        v3(-0.5, 0.0, 0.0),
        Quat::identity(),
    );
    dispatcher.process(&state1, &panels);

    // Frame 2: grip still held, controller moved
    let new_grip_pos = v3(0.5, 1.0, -1.0);
    let state2 = right_hand_grip_state(
        v3(-0.9, 0.0, 0.0),
        v3(0.0, 0.0, -1.0),
        0.9,
        new_grip_pos,
        Quat::identity(),
    );
    let events = dispatcher.process(&state2, &panels);

    let grab_move = events.iter().find(|(_, e)| matches!(e, InputEvent::GrabMove { .. }));
    assert!(grab_move.is_some(), "Should emit GrabMove while grip held");
    match &grab_move.unwrap().1 {
        InputEvent::GrabMove { grip_pos, .. } => {
            assert_eq!(*grip_pos, new_grip_pos, "GrabMove should carry current grip_pos");
        }
        _ => unreachable!(),
    }
}

#[test]
fn mod_dispatcher_grip_release_ends_grab() {
    let mut dispatcher = InputDispatcher::new();
    let panel = make_panel(v3(0.0, 0.0, -2.0), 2.0, 2.0);
    let panels: Vec<(PanelId, &PanelTransform)> = vec![(PanelId::new(1), &panel)];

    // Frame 1: grip in margin -> GrabStart
    let state1 = right_hand_grip_state(
        v3(-0.9, 0.0, 0.0),
        v3(0.0, 0.0, -1.0),
        0.9,
        Vec3::zero(),
        Quat::identity(),
    );
    dispatcher.process(&state1, &panels);

    // Frame 2: release grip
    let state2 = right_hand_grip_state(
        v3(-0.9, 0.0, 0.0),
        v3(0.0, 0.0, -1.0),
        0.0,
        Vec3::zero(),
        Quat::identity(),
    );
    let events = dispatcher.process(&state2, &panels);

    let has_grab_end = events.iter().any(|(_, e)| matches!(e, InputEvent::GrabEnd { .. }));
    assert!(has_grab_end, "Releasing grip should emit GrabEnd");
    // Grab should be cleared
    assert!(dispatcher.right.grab_active.is_none(), "Grab should be cleared after release");
}

#[test]
fn mod_dispatcher_a_click_during_grab() {
    let mut dispatcher = InputDispatcher::new();
    let panel = make_panel(v3(0.0, 0.0, -2.0), 2.0, 2.0);
    let panels: Vec<(PanelId, &PanelTransform)> = vec![(PanelId::new(1), &panel)];

    // Frame 1: grip in margin -> start grab
    let mut state1 = right_hand_grip_state(
        v3(-0.9, 0.0, 0.0),
        v3(0.0, 0.0, -1.0),
        0.9,
        Vec3::zero(),
        Quat::identity(),
    );
    state1.right.a_click = false;
    dispatcher.process(&state1, &panels);

    // Frame 2: grip held + A button pressed
    let mut state2 = right_hand_grip_state(
        v3(-0.9, 0.0, 0.0),
        v3(0.0, 0.0, -1.0),
        0.9,
        Vec3::zero(),
        Quat::identity(),
    );
    state2.right.a_click = true;
    let events = dispatcher.process(&state2, &panels);

    let has_button_a = events.iter().any(|(_, e)| matches!(
        e,
        InputEvent::ButtonPress { button: Button::A, .. }
    ));
    assert!(has_button_a, "A button during grab should emit ButtonPress {{ button: A }}");
}

#[test]
fn mod_dispatcher_thumbstick_during_grab() {
    let mut dispatcher = InputDispatcher::new();
    let panel = make_panel(v3(0.0, 0.0, -2.0), 2.0, 2.0);
    let panels: Vec<(PanelId, &PanelTransform)> = vec![(PanelId::new(1), &panel)];

    // Frame 1: grip in margin -> start grab
    let state1 = right_hand_grip_state(
        v3(-0.9, 0.0, 0.0),
        v3(0.0, 0.0, -1.0),
        0.9,
        Vec3::zero(),
        Quat::identity(),
    );
    dispatcher.process(&state1, &panels);

    // Frame 2: grip held + thumbstick Y pushed
    let mut state2 = right_hand_grip_state(
        v3(-0.9, 0.0, 0.0),
        v3(0.0, 0.0, -1.0),
        0.9,
        Vec3::zero(),
        Quat::identity(),
    );
    state2.right.thumbstick = [s(0.0), s(0.8)];
    let events = dispatcher.process(&state2, &panels);

    let has_thumbstick = events.iter().any(|(_, e)| matches!(
        e,
        InputEvent::ThumbstickMove { y, .. } if num(*y) > 0.5
    ));
    assert!(has_thumbstick, "Thumbstick Y during grab should emit ThumbstickMove");
}

#[test]
fn mod_dispatcher_grab_at_exact_margin_boundary() {
    // Test at exactly u=0.15 (should NOT be in grab margin -- margin is u < 0.15)
    let mut d = InputDispatcher::new();
    let panel = PanelTransform {
        center: v3(0.0, 1.6, -2.5),
        right_dir: v3(1.0, 0.0, 0.0),
        up_dir: v3(0.0, 1.0, 0.0),
        width: s(1.6),
        height: s(1.0),
        opacity: s(0.95),
        anchor: PanelAnchor::World,
        grabbable: false,
    };
    // Aim at u~0.15 (edge of margin)
    let x: f32 = (0.15 - 0.5) * 1.6; // u=0.15 -> x offset
    let mut state = ControllerState::default();
    state.right.active = true;
    state.right.aim_pos = v3(x, 1.6, 0.0);
    state.right.aim_dir = v3(0.0, 0.0, -1.0);
    state.right.squeeze = s(0.9);

    let events = d.process(&state, &[(PanelId::new(1), &panel)]);
    // At u=0.15, this is at the boundary -- behavior depends on strict < vs <=
    // Either outcome is acceptable, just verify no crash
    assert!(!events.is_empty()); // Should at least have PointerMove
}

#[test]
fn mod_dispatcher_both_hands_grab_same_panel() {
    let mut d = InputDispatcher::new();
    let panel = PanelTransform {
        center: v3(0.0, 1.6, -2.5),
        right_dir: v3(1.0, 0.0, 0.0),
        up_dir: v3(0.0, 1.0, 0.0),
        width: s(1.6),
        height: s(1.0),
        opacity: s(0.95),
        anchor: PanelAnchor::World,
        grabbable: false,
    };
    // Both hands aim at edges of the same panel
    let mut state = ControllerState::default();
    state.left.active = true;
    state.left.aim_pos = v3(-0.7, 1.6, 0.0); // left edge
    state.left.aim_dir = v3(0.0, 0.0, -1.0);
    state.left.squeeze = s(0.9);
    state.right.active = true;
    state.right.aim_pos = v3(0.7, 1.6, 0.0); // right edge
    state.right.aim_dir = v3(0.0, 0.0, -1.0);
    state.right.squeeze = s(0.9);

    let events = d.process(&state, &[(PanelId::new(1), &panel)]);
    // Should have GrabStart from both hands
    let grabs: Vec<_> = events.iter().filter(|(_, e)| matches!(e, InputEvent::GrabStart { .. })).collect();
    assert_eq!(grabs.len(), 2, "Both hands should grab: {:?}", events);
}

#[test]
fn a_grab_goes_on_off_the_panel_and_ends_with_the_grip() {
    let panel = make_panel(v3(0.0, 0.0, -2.0), 2.0, 2.0);
    let panels = vec![(PanelId::new(9), &panel)];
    let mut d = InputDispatcher::new();
    let edge = right_hand_grip_state(
        v3(-0.9, 0.0, 0.0), v3(0.0, 0.0, -1.0), 0.7, Vec3::zero(), Quat::identity(),
    );
    d.process(&edge, &panels);
    assert_eq!(d.right.grab_active, Some(PanelId::new(9)));

    // The ray has left the panel, the grip still holds it.
    let off = right_hand_grip_state(
        v3(9.0, 0.0, 0.0), v3(0.0, 0.0, -1.0), 0.7, v3(1.0, 2.0, 3.0), Quat::identity(),
    );
    let events = d.process(&off, &panels);
    assert_eq!(events.len(), 1);
    assert_eq!(events[0].0, PanelId::new(9));
    assert!(matches!(events[0].1, InputEvent::GrabMove { grip_pos, .. } if grip_pos == v3(1.0, 2.0, 3.0)));

    let open = right_hand_grip_state(
        v3(9.0, 0.0, 0.0), v3(0.0, 0.0, -1.0), 0.69, Vec3::zero(), Quat::identity(),
    );
    let events = d.process(&open, &panels);
    assert_eq!(events.len(), 1);
    assert!(matches!(events[0].1, InputEvent::GrabEnd { hand: Hand::Right }));
    assert_eq!(d.right.grab_active, None);
}

#[test]
fn a_small_stick_deflection_is_ignored() {
    let panel = make_panel(v3(0.0, 0.0, -2.0), 2.0, 2.0);
    let panels = vec![(PanelId::new(1), &panel)];
    let mut d = InputDispatcher::new();
    let mut state = right_hand_grip_state(
        v3(-0.9, 0.0, 0.0), v3(0.0, 0.0, -1.0), 0.9, Vec3::zero(), Quat::identity(),
    );
    d.process(&state, &panels);
    state.right.thumbstick = [s(0.1), s(0.29)];
    let events = d.process(&state, &panels);
    assert!(!events.iter().any(|(_, e)| matches!(e, InputEvent::ThumbstickMove { .. })));
    state.right.thumbstick = [s(0.1), s(-0.31)];
    let events = d.process(&state, &panels);
    assert!(events.iter().any(|(_, e)| matches!(e, InputEvent::ThumbstickMove { .. })));
}

#[test]
fn the_right_hand_leads_when_it_is_there() {
    let mut state = ControllerState::default();
    state.left.trigger = s(0.25);
    state.right.trigger = s(0.75);
    assert_eq!(state.leading_hand().trigger, s(0.25));
    state.right.active = true;
    assert_eq!(state.leading_hand().trigger, s(0.75));
}

#[test]
fn both_rays_are_tested_against_every_panel() {
    let mut state = ControllerState::default();
    state.left.aim_pos = v3(-0.25, 0.0, 0.0);
    state.left.aim_dir = v3(0.0, 0.0, -1.0);
    state.right.aim_pos = v3(5.0, 0.0, 0.0);
    state.right.aim_dir = v3(0.0, 0.0, -1.0);
    let mut near = make_panel(v3(0.0, 0.0, -2.0), 1.0, 1.0);
    near.grabbable = true;
    let away = make_panel(v3(5.0, 0.0, -4.0), 1.0, 1.0);
    let targets = aim(&state, &[(PanelId::new(3), &near), (PanelId::new(7), &away)]);
    let hit = |u: f32, distance: f32| {
        Some(RayHit { u: s(u), v: s(0.5), distance: s(distance) })
    };
    assert_eq!(
        targets,
        vec![
            PanelTarget {
                id: PanelId::new(3),
                grabbable: true,
                left: hit(0.25, 2.0),
                right: None,
            },
            PanelTarget {
                id: PanelId::new(7),
                grabbable: false,
                left: None,
                right: hit(0.5, 4.0),
            },
        ]
    );
    let mut tested = InputDispatcher::new();
    let mut given = InputDispatcher::new();
    state.left.active = true;
    let events = tested.process(&state, &[(PanelId::new(3), &near)]);
    let same = given.dispatch(&state, &aim(&state, &[(PanelId::new(3), &near)]));
    assert_eq!(format!("{:?}", events), format!("{:?}", same));
    assert_eq!(events.len(), 1);
}
