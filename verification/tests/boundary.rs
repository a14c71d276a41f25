//! The play space boundary: which walls show, and how clearly.

use clearxr_space::scalar::Scalar;
use clearxr_space::shell::boundary::{Boundary, BoundaryVisibility};
use glam::Vec3;

fn num(value: Scalar) -> f32 {
    f32::from_bits(value.to_bits())
}

fn s(value: f32) -> Scalar {
    Scalar::from_bits(value.to_bits())
}

/// Wall opacities as numbers.
struct Seen {
    left: f32,
    right: f32,
    front: f32,
    back: f32,
}

fn v3(v: Vec3) -> clearxr_space::geometry::Vec3 {
    clearxr_space::geometry::Vec3 { x: s(v.x), y: s(v.y), z: s(v.z) }
}

fn seen(b: &Boundary, pos: Vec3) -> Seen {
    let visibility = b.compute_visibility(v3(pos));
    Seen {
        left: num(visibility.left),
        right: num(visibility.right),
        front: num(visibility.front),
        back: num(visibility.back),
    }
}

#[test]
fn boundary_center_invisible() {
    let b = Boundary::default(); // 3m x 3m, centered at origin
    let vis = seen(&b, Vec3::ZERO);
    assert_eq!(vis.left, 0.0);
    assert_eq!(vis.right, 0.0);
    assert_eq!(vis.front, 0.0);
    assert_eq!(vis.back, 0.0);
}

#[test]
fn boundary_near_edge_fades_in() {
    let b = Boundary::default(); // half_width = 1.5, fade = 0.8
    // At x = 1.0, distance to +X edge = 0.5 (within fade_distance)
    let vis = seen(&b, Vec3::new(1.0, 0.0, 0.0));
    assert!(vis.right > 0.0, "Right wall should be visible near edge");
    assert!(vis.right < 1.0, "Right wall should not be fully opaque yet");
    assert_eq!(vis.left, 0.0, "Left wall should be invisible");
}

#[test]
fn boundary_at_edge_fully_visible() {
    let b = Boundary::default();
    // At x = 1.5 (exactly at the boundary edge)
    let vis = seen(&b, Vec3::new(1.5, 0.0, 0.0));
    assert!((vis.right - 1.0).abs() < 0.01, "Right wall should be fully visible at edge");
}

#[test]
fn boundary_past_edge() {
    let b = Boundary::default();
    let vis = seen(&b, Vec3::new(2.0, 0.0, 0.0));
    assert_eq!(vis.right, 1.0, "Past edge should be fully visible");
}

#[test]
fn boundary_disabled() {
    let mut b = Boundary::default();
    b.enabled = false;
    let vis = seen(&b, Vec3::new(1.5, 0.0, 0.0));
    assert_eq!(vis.left, 0.0);
    assert_eq!(vis.right, 0.0);
    assert_eq!(vis.front, 0.0);
    assert_eq!(vis.back, 0.0);
}

#[test]
fn boundary_set_bounds() {
    let mut b = Boundary::default();
    b.set_bounds(s(4.0), s(6.0));
    assert_eq!(num(b.half_width), 2.0);
    assert_eq!(num(b.half_depth), 3.0);
}

#[test]
fn boundary_corner_two_walls() {
    let b = Boundary::default();
    // Near the +X, -Z corner
    let vis = seen(&b, Vec3::new(1.2, 0.0, -1.2));
    assert!(vis.right > 0.0, "Right wall visible in corner");
    assert!(vis.front > 0.0, "Front wall visible in corner");
    assert_eq!(vis.left, 0.0);
    assert_eq!(vis.back, 0.0);
}

#[test]
fn boundary_negative_position() {
    let b = Boundary::default(); // half_width=1.5, half_depth=1.5
    // User at far negative X: should trigger left wall
    let vis = seen(&b, Vec3::new(-1.2, 0.0, 0.0));
    assert!(vis.left > 0.0, "Left wall should be visible at negative X near edge");
    assert_eq!(vis.right, 0.0, "Right wall should not be visible");
}

#[test]
fn boundary_far_outside() {
    let b = Boundary::default();
    let vis = seen(&b, Vec3::new(-5.0, 0.0, 0.0));
    assert_eq!(vis.left, 1.0, "Far outside left should be fully visible");
}

#[test]
fn boundary_z_axis_front_wall() {
    let b = Boundary::default(); // half_depth=1.5
    let vis = seen(&b, Vec3::new(0.0, 0.0, -1.2));
    assert!(vis.front > 0.0, "Front wall should be visible near -Z edge");
    assert!(vis.front < 1.0, "Front wall should not be fully opaque");
    assert_eq!(vis.back, 0.0, "Back wall should be invisible");
}

#[test]
fn boundary_z_axis_back_wall() {
    let b = Boundary::default();
    let vis = seen(&b, Vec3::new(0.0, 0.0, 1.2));
    assert!(vis.back > 0.0, "Back wall should be visible near +Z edge");
    assert_eq!(vis.front, 0.0, "Front wall should be invisible");
}

#[test]
fn boundary_custom_size() {
    let mut b = Boundary::default();
    b.set_bounds(s(10.0), s(10.0)); // large play space
    // At x=1.0, user is well inside the 5m half-width
    let vis = seen(&b, Vec3::new(1.0, 0.0, 0.0));
    assert_eq!(vis.right, 0.0, "Should be invisible in large play space center");
    assert_eq!(vis.left, 0.0);
}

#[test]
fn boundary_custom_fade_distance() {
    let mut b = Boundary::default();
    b.fade_distance = s(1.5); // very wide fade zone
    // At x=0.5, distance to +X edge = 1.0, within fade_distance=1.5
    let vis = seen(&b, Vec3::new(0.5, 0.0, 0.0));
    assert!(vis.right > 0.0, "Should see right wall with wide fade");
}

#[test]
fn boundary_all_four_corners() {
    let b = Boundary::default();
    // All four corners should show two walls each
    let corners = [
        (Vec3::new(1.2, 0.0, -1.2), "right", "front"),
        (Vec3::new(-1.2, 0.0, -1.2), "left", "front"),
        (Vec3::new(1.2, 0.0, 1.2), "right", "back"),
        (Vec3::new(-1.2, 0.0, 1.2), "left", "back"),
    ];
    for (pos, wall_a, wall_b) in corners {
        let vis = seen(&b, pos);
        let a = match wall_a {
            "right" => vis.right, "left" => vis.left,
            "front" => vis.front, _ => vis.back,
        };
        let b_val = match wall_b {
            "right" => vis.right, "left" => vis.left,
            "front" => vis.front, _ => vis.back,
        };
        assert!(a > 0.0, "At corner {:?}, {} wall should be visible", pos, wall_a);
        assert!(b_val > 0.0, "At corner {:?}, {} wall should be visible", pos, wall_b);
    }
}

#[test]
fn boundary_y_position_ignored() {
    let b = Boundary::default();
    // Y position should not affect boundary visibility (it uses X and Z only)
    let vis_floor = seen(&b, Vec3::new(1.2, 0.0, 0.0));
    let vis_high = seen(&b, Vec3::new(1.2, 5.0, 0.0));
    assert_eq!(vis_floor.right, vis_high.right,
        "Y position should not affect boundary visibility");
}

#[test]
fn boundary_default_field_values() {
    let b = Boundary::default();
    assert_eq!(num(b.half_width), 1.5);
    assert_eq!(num(b.half_depth), 1.5);
    assert_eq!(num(b.fade_distance), 0.8);
    assert!(b.enabled);
}

#[test]
fn fading_walls_take_the_worked_out_opacity() {
    let b = Boundary::default();
    let vis = seen(&b, Vec3::new(1.1, 0.0, 0.0));
    assert_eq!(vis.right, 1.0 - (1.5 - 1.1f32) / 0.8);
}

#[test]
fn wall_opacity_goes_from_clear_to_solid() {
    let mut b = Boundary::default();
    b.fade_distance = s(2.0);
    let opacity = |distance: f32| num(b.wall_opacity(s(distance)));
    assert_eq!(opacity(2.0), 0.0);
    assert_eq!(opacity(1.5), 0.25);
    assert_eq!(opacity(0.5), 0.75);
    assert_eq!(opacity(0.0), 1.0);
    assert_eq!(opacity(-3.0), 1.0);
    assert_eq!(opacity(f32::INFINITY), 0.0);
    assert_eq!(opacity(0.1), 1.0 - 0.1f32 / 2.0);
}

#[test]
fn wall_opacity_is_the_hardware_one_step_by_step() {
    let b = Boundary::default();
    let mut before = 1.0;
    for step in 0..2000 {
        let distance = step as f32 * 0.0005;
        let opacity = num(b.wall_opacity(s(distance)));
        let expected = if distance >= 0.8 {
            0.0
        } else if distance <= 0.0 {
            1.0
        } else {
            1.0 - distance / 0.8
        };
        assert_eq!(opacity.to_bits(), expected.to_bits());
        assert!(opacity <= before);
        before = opacity;
    }
}

#[test]
fn a_wall_is_near_from_its_warning_opacity_on() {
    let b = Boundary::default();
    // Opacity 0.3 is reached 0.56 m from a wall.
    assert!(b.compute_visibility(v3(Vec3::new(0.95, 0.0, 0.0))).near());
    assert!(!b.compute_visibility(v3(Vec3::new(0.93, 0.0, 0.0))).near());
    assert!(b.compute_visibility(v3(Vec3::new(0.0, 0.0, 1.5))).near());
    assert!(!BoundaryVisibility::default().near());
}

#[test]
fn opposite_points_see_opposite_walls() {
    let b = Boundary::default();
    let here = seen(&b, Vec3::new(1.1, 0.3, -0.9));
    let there = seen(&b, Vec3::new(-1.1, 0.3, 0.9));
    assert_eq!((here.left, here.right), (there.right, there.left));
    assert_eq!((here.front, here.back), (there.back, there.front));
    assert!(here.right > 0.0 && here.right < 1.0);
}

#[test]
fn walls_appear_on_the_way_towards_them() {
    let b = Boundary::default();
    let mut before = 0.0;
    for step in 0..40 {
        let right = seen(&b, Vec3::new(step as f32 * 0.05, 0.0, 0.0)).right;
        assert!((0.0..=1.0).contains(&right) && before <= right);
        before = right;
    }
    assert_eq!(before, 1.0);
}
