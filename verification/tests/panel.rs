//! Panel placement and anchors.

use clearxr_space::geometry::Vec3;
use clearxr_space::launcher_panel::LauncherPanel;
use clearxr_space::panel::{Hand, PanelAnchor, PanelTransform, Placement};
use clearxr_space::scalar::Scalar;

fn num(value: Scalar) -> f32 {
    f32::from_bits(value.to_bits())
}

fn s(value: f32) -> Scalar {
    Scalar::from_bits(value.to_bits())
}

fn to_glam(v: Vec3) -> glam::Vec3 {
    glam::Vec3::new(num(v.x), num(v.y), num(v.z))
}

fn from_glam(v: glam::Vec3) -> Vec3 {
    Vec3 { x: s(v.x), y: s(v.y), z: s(v.z) }
}

/// Where a ray hits a panel, as panel coordinates and distance.
fn hit_test(
    panel: &PanelTransform,
    origin: glam::Vec3,
    dir: glam::Vec3,
) -> Option<(f32, f32, f32)> {
    let hit = panel.hit_test(from_glam(origin), from_glam(dir))?;
    Some((num(hit.u), num(hit.v), num(hit.distance)))
}

/// Head and controller, each as position, forward, right and up.
struct Poses {
    head: [glam::Vec3; 4],
    controller: [glam::Vec3; 4],
}

/// Where a panel's anchor puts it, computed with the machine's numbers.
fn machine_placement(panel: &PanelTransform, poses: &Poses) -> Option<Placement> {
    let [head_pos, head_forward, head_right, head_up] = poses.head;
    let [pos, forward, right, up] = poses.controller;
    let (center, right_dir, up_dir, width, height) = match panel.anchor {
        PanelAnchor::World => return None,
        PanelAnchor::Controller { .. } => {
            (pos + forward * 0.25 + up * 0.05, right, up, num(panel.width), num(panel.height))
        }
        PanelAnchor::Wrist { hand } => {
            let sign = match hand {
                Hand::Left => 1.0,
                Hand::Right => -1.0,
            };
            (pos + right * (sign * 0.08) + up * 0.03, forward, up, 0.15, 0.10)
        }
        PanelAnchor::Head { offset } => {
            let offset = to_glam(offset);
            let center =
                head_pos + head_forward * offset.z + head_right * offset.x + head_up * offset.y;
            (center, head_right, head_up, num(panel.width), num(panel.height))
        }
        PanelAnchor::Theater { distance, scale } => {
            let flat = glam::Vec3::new(head_forward.x, 0.0, head_forward.z).normalize_or_zero();
            if flat == glam::Vec3::ZERO {
                return None;
            }
            (
                head_pos + flat * num(distance) + glam::Vec3::Y * 0.5,
                flat.cross(glam::Vec3::Y).normalize(),
                glam::Vec3::Y,
                1.6 * num(scale),
                1.0 * num(scale),
            )
        }
    };
    Some(Placement {
        center: from_glam(center),
        right_dir: from_glam(right_dir),
        up_dir: from_glam(up_dir),
        width: s(width),
        height: s(height),
    })
}

fn follow(panel: &mut PanelTransform, poses: &Poses) {
    let [head_pos, head_forward, head_right, head_up] = poses.head.map(from_glam);
    let [pos, forward, right, up] = poses.controller.map(from_glam);
    panel.update_anchor(head_pos, head_forward, head_right, head_up, pos, forward, right, up);
}

const NOWHERE: [glam::Vec3; 4] = [glam::Vec3::ZERO; 4];

#[test]
fn panel_anchor_default_is_world() {
    let t = PanelTransform::default();
    assert_eq!(t.anchor, PanelAnchor::World);
}

#[test]
fn default_panel_stands_at_eye_height() {
    let t = PanelTransform::default();
    assert_eq!(to_glam(t.center), glam::Vec3::new(0.0, 1.6, -2.5));
    assert_eq!(to_glam(t.right_dir), glam::Vec3::X);
    assert_eq!(to_glam(t.up_dir), glam::Vec3::Y);
    assert_eq!(num(t.width), 1.6);
    assert_eq!(num(t.height), 1.0);
    assert_eq!(num(t.opacity), 0.95);
    assert!(!t.grabbable);
}

#[test]
fn anchor_cycle_order() {
    let mut t = PanelTransform::default();
    assert_eq!(t.anchor, PanelAnchor::World);
    t.cycle_anchor();
    assert!(matches!(t.anchor, PanelAnchor::Controller { .. }));
    t.cycle_anchor();
    assert!(matches!(t.anchor, PanelAnchor::Wrist { .. }));
    t.cycle_anchor();
    assert!(matches!(t.anchor, PanelAnchor::Theater { .. }));
    t.cycle_anchor();
    assert!(matches!(t.anchor, PanelAnchor::Head { .. }));
    t.cycle_anchor();
    assert_eq!(t.anchor, PanelAnchor::World);
}

#[test]
fn anchor_cycle_values() {
    let mut t = PanelTransform::default();
    t.cycle_anchor();
    assert_eq!(t.anchor, PanelAnchor::Controller { hand: Hand::Right });
    t.cycle_anchor();
    assert_eq!(t.anchor, PanelAnchor::Wrist { hand: Hand::Left });
    t.cycle_anchor();
    assert_eq!(t.anchor, PanelAnchor::Theater { distance: s(5.0), scale: s(3.0) });
    t.cycle_anchor();
    assert_eq!(t.anchor, PanelAnchor::Head { offset: from_glam(glam::Vec3::new(0.0, 0.0, -2.0)) });
}

#[test]
fn anchor_cycle_preserves_world_position() {
    // When cycling through anchors and back to World, verify behavior
    let mut t = PanelTransform::default();
    let original = t.center;

    t.cycle_anchor(); // World -> Controller
    t.cycle_anchor(); // Controller -> Wrist
    t.cycle_anchor(); // Wrist -> Theater

    // Theater changes position via update_anchor
    follow(
        &mut t,
        &Poses {
            head: [
                glam::Vec3::new(0.0, 1.6, 0.0),
                glam::Vec3::NEG_Z,
                glam::Vec3::X,
                glam::Vec3::Y,
            ],
            controller: NOWHERE,
        },
    );
    assert_ne!(t.center, original, "Theater should move panel");
    let moved = t.center;

    t.cycle_anchor(); // Theater -> Head
    t.cycle_anchor(); // Head -> World
    // Returning to World keeps the last position (World anchor doesn't auto-reposition)
    assert_eq!(t.anchor, PanelAnchor::World);
    assert_eq!(t.center, moved);
}

#[test]
fn theater_mode_positions_in_front() {
    let mut t = PanelTransform::default();
    t.anchor = PanelAnchor::Theater { distance: s(5.0), scale: s(3.0) };
    follow(
        &mut t,
        &Poses {
            head: [
                glam::Vec3::new(0.0, 1.6, 0.0),
                glam::Vec3::new(0.0, 0.0, -1.0),
                glam::Vec3::new(1.0, 0.0, 0.0),
                glam::Vec3::new(0.0, 1.0, 0.0),
            ],
            controller: NOWHERE,
        },
    );
    let center = to_glam(t.center);
    assert!((center.z - (-5.0)).abs() < 0.1, "Panel should be ~5m in front, got z={}", center.z);
    assert!(num(t.width) > 4.0, "Theater panel should be wide, got {}", num(t.width));
}

#[test]
fn controller_anchor_follows_controller() {
    let mut t = PanelTransform::default();
    t.anchor = PanelAnchor::Controller { hand: Hand::Right };
    let ctrl_pos = glam::Vec3::new(0.3, 1.0, -0.5);
    let ctrl_fwd = glam::Vec3::new(0.0, 0.0, -1.0);
    follow(
        &mut t,
        &Poses {
            head: NOWHERE,
            controller: [ctrl_pos, ctrl_fwd, glam::Vec3::X, glam::Vec3::Y],
        },
    );
    let expected = ctrl_pos + ctrl_fwd * 0.25 + glam::Vec3::Y * 0.05;
    assert!((to_glam(t.center) - expected).length() < 0.01);
    // The size stays.
    assert_eq!(num(t.width), 1.6);
}

#[test]
fn world_anchor_does_not_move() {
    let mut t = PanelTransform::default();
    let original_center = t.center;
    follow(
        &mut t,
        &Poses {
            head: [
                glam::Vec3::new(5.0, 5.0, 5.0),
                glam::Vec3::X,
                glam::Vec3::Y,
                glam::Vec3::Z,
            ],
            controller: [
                glam::Vec3::new(10.0, 10.0, 10.0),
                glam::Vec3::X,
                glam::Vec3::Y,
                glam::Vec3::Z,
            ],
        },
    );
    assert_eq!(t.center, original_center);
    assert_eq!(t, PanelTransform::default());
}

#[test]
fn wrist_anchor_small_panel() {
    let mut t = PanelTransform::default();
    t.anchor = PanelAnchor::Wrist { hand: Hand::Left };
    follow(
        &mut t,
        &Poses {
            head: NOWHERE,
            controller: [
                glam::Vec3::new(0.0, 1.0, -0.3),
                glam::Vec3::NEG_Z,
                glam::Vec3::X,
                glam::Vec3::Y,
            ],
        },
    );
    assert!(num(t.width) < 0.2, "Wrist panel should be small, got {}", num(t.width));
    assert!(num(t.height) < 0.15, "Wrist panel should be small, got {}", num(t.height));
    assert_eq!(num(t.width), 0.15);
    assert_eq!(num(t.height), 0.10);
}

#[test]
fn theater_mode_looking_straight_up() {
    let mut t = PanelTransform::default();
    t.anchor = PanelAnchor::Theater { distance: s(5.0), scale: s(3.0) };
    let original_center = t.center;
    // Looking straight up: forward = (0, 1, 0)
    follow(
        &mut t,
        &Poses {
            head: [
                glam::Vec3::new(0.0, 1.6, 0.0),
                glam::Vec3::new(0.0, 1.0, 0.0),
                glam::Vec3::new(1.0, 0.0, 0.0),
                glam::Vec3::new(0.0, 0.0, -1.0),
            ],
            controller: NOWHERE,
        },
    );
    assert!(!num(t.center.x).is_nan());
    assert!(!num(t.center.y).is_nan());
    assert!(!num(t.center.z).is_nan());
    assert_eq!(t.center, original_center);
}

#[test]
fn head_anchor_positions_with_offset() {
    let mut t = PanelTransform::default();
    t.anchor = PanelAnchor::Head { offset: from_glam(glam::Vec3::new(0.5, -0.3, -2.0)) };
    follow(
        &mut t,
        &Poses {
            head: [
                glam::Vec3::new(0.0, 1.6, 0.0),
                glam::Vec3::new(0.0, 0.0, -1.0),
                glam::Vec3::new(1.0, 0.0, 0.0),
                glam::Vec3::new(0.0, 1.0, 0.0),
            ],
            controller: NOWHERE,
        },
    );
    // Expected: head_pos + right*0.5 + up*(-0.3) + forward*(-2.0)
    let expected = glam::Vec3::new(0.5, 1.3, 2.0);
    let center = to_glam(t.center);
    assert!((center - expected).length() < 0.01, "Head anchor offset wrong: {:?}", center);
}

// ---- Rays ----

#[test]
fn hit_test_direct_hit() {
    let panel = PanelTransform::default();
    let origin = glam::Vec3::new(0.0, 1.6, 0.0);
    let dir = glam::Vec3::new(0.0, 0.0, -1.0);
    let result = hit_test(&panel, origin, dir);
    assert!(result.is_some());
    let (u, v, t) = result.unwrap();
    assert!((u - 0.5).abs() < 0.01, "u should be ~0.5, got {}", u);
    assert!((v - 0.5).abs() < 0.01, "v should be ~0.5, got {}", v);
    assert!((t - 2.5).abs() < 0.01, "t should be ~2.5, got {}", t);
}

#[test]
fn hit_test_miss_outside_panel() {
    let panel = PanelTransform::default();
    let origin = glam::Vec3::new(5.0, 1.6, 0.0);
    let dir = glam::Vec3::new(0.0, 0.0, -1.0);
    assert!(hit_test(&panel, origin, dir).is_none());
}

#[test]
fn hit_test_miss_parallel() {
    let panel = PanelTransform::default();
    let origin = glam::Vec3::new(0.0, 1.6, 0.0);
    let dir = glam::Vec3::new(1.0, 0.0, 0.0);
    assert!(hit_test(&panel, origin, dir).is_none());
}

#[test]
fn hit_test_miss_behind() {
    let panel = PanelTransform::default();
    let origin = glam::Vec3::new(0.0, 1.6, 0.0);
    let dir = glam::Vec3::new(0.0, 0.0, 1.0);
    assert!(hit_test(&panel, origin, dir).is_none());
}

#[test]
fn hit_test_corner() {
    let panel = PanelTransform::default();
    let origin = glam::Vec3::new(0.8, 2.1, 0.0);
    let dir = glam::Vec3::new(0.0, 0.0, -1.0);
    let result = hit_test(&panel, origin, dir);
    assert!(result.is_some());
    let (u, v, _) = result.unwrap();
    assert!(u > 0.95, "u should be near 1.0, got {}", u);
    assert!(v < 0.05, "v should be near 0.0, got {}", v);
}

#[test]
fn hit_test_floor_panel() {
    let panel = PanelTransform {
        center: from_glam(glam::Vec3::new(0.0, 0.01, -0.5)),
        right_dir: from_glam(glam::Vec3::X),
        up_dir: from_glam(-glam::Vec3::Z),
        width: s(0.3),
        height: s(0.12),
        opacity: s(0.9),
        anchor: PanelAnchor::World,
        grabbable: false,
    };
    let origin = glam::Vec3::new(0.0, 1.6, 0.0);
    let dir = glam::Vec3::new(0.0, -1.0, -0.3).normalize();
    // Whether it hits depends on rounding; a panel of any orientation can be asked.
    let _ = hit_test(&panel, origin, dir);
}

#[test]
fn hit_test_exact_boundary_u0() {
    let panel = PanelTransform::default();
    let origin = glam::Vec3::new(-0.8, 1.6, 0.0);
    let dir = glam::Vec3::new(0.0, 0.0, -1.0);
    let result = hit_test(&panel, origin, dir);
    assert!(result.is_some(), "Exact left edge should be a hit");
    let (u, _, _) = result.unwrap();
    assert!((u - 0.0).abs() < 0.01);
}

#[test]
fn hit_test_exact_boundary_u1() {
    let panel = PanelTransform::default();
    let origin = glam::Vec3::new(0.8, 1.6, 0.0);
    let dir = glam::Vec3::new(0.0, 0.0, -1.0);
    let result = hit_test(&panel, origin, dir);
    assert!(result.is_some(), "Exact right edge should be a hit");
    let (u, _, _) = result.unwrap();
    assert!((u - 1.0).abs() < 0.01);
}

/// The same ray against the same panel, computed with the machine's numbers.
fn machine_hit(panel: &PanelTransform, o: glam::Vec3, d: glam::Vec3) -> Option<[u32; 3]> {
    let (right, up) = (to_glam(panel.right_dir), to_glam(panel.up_dir));
    let center = to_glam(panel.center);
    let normal = right.cross(up);
    let slope = d.dot(normal);
    if slope.abs() < 1e-6 {
        return None;
    }
    let t = (center - o).dot(normal) / slope;
    if t < 0.0 {
        return None;
    }
    let local = o + d * t - center;
    let u = local.dot(right) / num(panel.width) + 0.5;
    let v = 0.5 - local.dot(up) / num(panel.height);
    if (0.0..=1.0).contains(&u) && (0.0..=1.0).contains(&v) {
        Some([u.to_bits(), v.to_bits(), t.to_bits()])
    } else {
        None
    }
}

#[test]
fn hits_are_those_of_the_machine_bit_by_bit() {
    let mut seed: u64 = 12345;
    let mut next = || {
        seed = seed.wrapping_mul(6364136223846793005).wrapping_add(1442695040888963407);
        (seed >> 40) as f32 / 8388608.0 - 1.0
    };
    let mut hits = 0;
    for _ in 0..2000 {
        let mut panel = PanelTransform::default();
        panel.center = from_glam(glam::Vec3::new(next(), 1.6 + next(), -2.5 + next()));
        panel.right_dir = from_glam(glam::Vec3::new(1.0, next() * 0.3, next() * 0.3).normalize());
        panel.up_dir = from_glam(glam::Vec3::new(next() * 0.3, 1.0, next() * 0.3).normalize());
        panel.width = s(2.0 + next());
        panel.height = s(2.0 + next());
        let origin = glam::Vec3::new(next(), 1.6 + next(), next());
        let dir = glam::Vec3::new(next() * 0.4, next() * 0.4, -1.0).normalize();
        let hit = panel.hit_test(from_glam(origin), from_glam(dir));
        let bits = hit.map(|h| [h.u.to_bits(), h.v.to_bits(), h.distance.to_bits()]);
        assert_eq!(bits, machine_hit(&panel, origin, dir));
        if hit.is_some() {
            hits += 1;
        }
    }
    assert!(hits > 200 && hits < 1900);
}

#[test]
fn a_ray_without_numbers_hits_nothing() {
    let panel = PanelTransform::default();
    let origin = glam::Vec3::new(0.0, 1.6, 0.0);
    let ahead = glam::Vec3::new(0.0, 0.0, -1.0);
    assert_eq!(hit_test(&panel, origin, ahead), Some((0.5, 0.5, 2.5)));
    assert!(hit_test(&panel, glam::Vec3::NAN, ahead).is_none());
    assert!(hit_test(&panel, origin, glam::Vec3::new(0.0, f32::NAN, -1.0)).is_none());
    assert!(hit_test(&panel, origin, glam::Vec3::new(0.0, 0.0, -9e-7)).is_none());
    assert!(hit_test(&panel, origin, -ahead).is_none());
    assert!(hit_test(&panel, origin, glam::Vec3::new(0.0, f32::INFINITY, -1.0)).is_none());
    let flat = PanelTransform { height: s(0.0), ..panel };
    assert!(hit_test(&flat, origin, ahead).is_none());
}

#[test]
fn a_panel_is_hit_from_behind_too() {
    let panel = PanelTransform::default();
    let origin = glam::Vec3::new(0.4, 1.6, -5.0);
    let hit = hit_test(&panel, origin, glam::Vec3::new(0.0, 0.0, 1.0));
    let (u, v, distance) = hit.unwrap();
    assert!((u - 0.75).abs() < 1e-6 && v == 0.5 && distance == 2.5);
}

#[test]
fn a_textured_panel_is_hit_wherever_the_camera_is() {
    let panel = LauncherPanel::new(64, 32);
    let origin = from_glam(glam::Vec3::new(0.2, 1.5, 0.0));
    let dir = from_glam(glam::Vec3::new(0.0, 0.0, -1.0));
    let hit = panel.hit_test(origin, dir, from_glam(glam::Vec3::ZERO));
    assert!(hit.is_some());
    assert_eq!(hit, panel.hit_test(origin, dir, from_glam(glam::Vec3::ONE)));
    assert_eq!(hit, panel.transform().hit_test(origin, dir));
    assert_eq!(panel.transform().anchor, PanelAnchor::World);
    assert!(!panel.transform().grabbable);
}

#[test]
fn anchors_place_panels_as_the_machine_does_bit_by_bit() {
    let mut seed: u64 = 99;
    let mut next = || {
        seed = seed.wrapping_mul(6364136223846793005).wrapping_add(1442695040888963407);
        (seed >> 40) as f32 / 8388608.0 - 1.0
    };
    for _ in 0..400 {
        let mut vector = || glam::Vec3::new(next(), next(), next());
        let poses = Poses {
            head: [vector(), vector(), vector(), vector()],
            controller: [vector(), vector(), vector(), vector()],
        };
        let offset = from_glam(vector());
        let sizes = vector();
        for anchor in [
            PanelAnchor::World,
            PanelAnchor::Controller { hand: Hand::Right },
            PanelAnchor::Wrist { hand: Hand::Left },
            PanelAnchor::Wrist { hand: Hand::Right },
            PanelAnchor::Head { offset },
            PanelAnchor::Theater { distance: s(sizes.x * 5.0), scale: s(sizes.y * 3.0) },
        ] {
            let mut panel = PanelTransform { anchor, ..PanelTransform::default() };
            let expected = match machine_placement(&panel, &poses) {
                Some(p) => PanelTransform {
                    center: p.center,
                    right_dir: p.right_dir,
                    up_dir: p.up_dir,
                    width: p.width,
                    height: p.height,
                    ..panel
                },
                None => panel,
            };
            follow(&mut panel, &poses);
            assert_eq!(panel, expected);
        }
    }
}

#[test]
fn a_theater_panel_does_not_nod() {
    let upright = |forward: glam::Vec3| {
        let mut panel = PanelTransform::default();
        panel.anchor = PanelAnchor::Theater { distance: s(4.0), scale: s(2.0) };
        let head = [glam::Vec3::Y, forward, glam::Vec3::X, glam::Vec3::Y];
        follow(&mut panel, &Poses { head, controller: NOWHERE });
        panel
    };
    let level = upright(glam::Vec3::new(0.6, 0.0, -0.8));
    assert_eq!(level, upright(glam::Vec3::new(0.6, 7.0, -0.8)));
    assert_eq!(to_glam(level.up_dir), glam::Vec3::Y);
    assert_eq!(num(level.width), 3.2);
    assert_eq!(num(level.height), 2.0);
}
