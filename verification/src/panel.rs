//! Panels in space: their identity, placement, and anchor modes.

use crate::geometry::{Vec3, ONE_BITS};
use crate::input::RayHit;
use crate::rounding::{
    law_differences_turn_round, law_one_times, law_over_minus_one, law_plus_zero,
    law_shifted_quotients, law_sums_of_same_numbers, law_sums_stay_within, law_zero_times, within,
};
use crate::scalar::{lemma_small_units, Scalar};
use crate::seconds::law_times_one;
use vstd::prelude::*;

verus! {

/// Names a panel to the input dispatcher.
#[derive(Clone, Copy, Debug, PartialEq, Eq, Hash, Structural)]
pub struct PanelId(pub u64);

impl PanelId {
    /// The panel id with this number.
    pub fn new(id: u64) -> (panel: Self)
        ensures
            panel.0 == id,
    {
        PanelId(id)
    }
}

/// One of the two controllers.
#[derive(Clone, Copy, Debug, PartialEq, Eq, Structural)]
pub enum Hand {
    Left,
    Right,
}

/// What a panel is attached to.
#[derive(Clone, Copy, Debug, PartialEq, Eq, Structural)]
pub enum PanelAnchor {
    World,
    Controller { hand: Hand },
    Wrist { hand: Hand },
    Head { offset: Vec3 },
    Theater { distance: Scalar, scale: Scalar },
}

/// 1.6, the default eye height and panel width.
pub const EYE_HEIGHT: u32 = 0x3fcc_cccd;

/// -2.5, how far in front of the user a panel starts.
pub const PANEL_DEPTH: u32 = 0xc020_0000;

/// 0.95, the default opacity.
pub const PANEL_OPACITY: u32 = 0x3f73_3333;

/// 5.0, how far away a theater panel is.
pub const THEATER_DISTANCE: u32 = 0x40a0_0000;

/// 3.0, how much larger a theater panel is.
pub const THEATER_SCALE: u32 = 0x4040_0000;

/// -2.0, how far along the view a head-locked panel is.
pub const HEAD_DEPTH: u32 = 0xc000_0000;

/// 0.15, the width of a panel on the wrist.
pub const WRIST_WIDTH: u32 = 0x3e19_999a;

/// 0.10, the height of a panel on the wrist.
pub const WRIST_HEIGHT: u32 = 0x3dcc_cccd;

/// 0.25, how far ahead of its controller a panel floats.
pub const CONTROLLER_AHEAD: u32 = 0x3e80_0000;

/// 0.05, how far above its controller a panel floats.
pub const CONTROLLER_ABOVE: u32 = 0x3d4c_cccd;

/// 0.08, how far to the right of the left controller the inner wrist is.
pub const WRIST_INWARD: u32 = 0x3da3_d70a;

/// -0.08, how far to the right of the right controller the inner wrist is.
pub const WRIST_OUTWARD: u32 = 0xbda3_d70a;

/// 0.03, how far above its controller a panel on the wrist is.
pub const WRIST_ABOVE: u32 = 0x3cf5_c28f;

/// 1e-6, the slope below which a ray runs along a panel's plane.
pub const PARALLEL_SLOPE: u32 = 0x3586_37bd;

/// 0.5, the middle of a panel.
pub const HALF_BITS: u32 = 0x3f00_0000;

/// How a ray and the plane of a panel meet.
#[derive(Clone, Copy, Debug, PartialEq, Eq, Structural)]
pub struct PlaneMeeting {
    /// The ray's direction along the panel's normal.
    pub slope: Scalar,
    /// How far along the ray the plane is; negative behind its origin.
    pub distance: Scalar,
    /// Where on the plane, from 0 to 1 on the panel: left to right.
    pub u: Scalar,
    /// Where on the plane, from 0 to 1 on the panel: top to bottom.
    pub v: Scalar,
}

impl PlaneMeeting {
    /// Whether the ray hits the panel: it does not run along the plane, the plane is
    /// not behind it, and it meets the plane on the panel, edges included.
    pub open spec fn on_panel(self) -> bool {
        let zero = Scalar { bits: 0 };
        let one = Scalar { bits: ONE_BITS };
        &&& !self.slope.unsigned().below(Scalar { bits: PARALLEL_SLOPE })
        &&& !self.distance.below(zero)
        &&& zero.at_most(self.u) && self.u.at_most(one)
        &&& zero.at_most(self.v) && self.v.at_most(one)
    }
}

impl PanelAnchor {
    /// Theater mode at its default distance and scale.
    pub open spec fn default_theater() -> PanelAnchor {
        PanelAnchor::Theater {
            distance: Scalar { bits: THEATER_DISTANCE },
            scale: Scalar { bits: THEATER_SCALE },
        }
    }

    /// The anchor after this one, in the order world, right controller, left
    /// wrist, theater, head, world.
    pub open spec fn following(self) -> PanelAnchor {
        match self {
            PanelAnchor::World => PanelAnchor::Controller { hand: Hand::Right },
            PanelAnchor::Controller { .. } => PanelAnchor::Wrist { hand: Hand::Left },
            PanelAnchor::Wrist { .. } => PanelAnchor::default_theater(),
            PanelAnchor::Theater { .. } => PanelAnchor::Head {
                offset: Vec3::of_bits(0, 0, HEAD_DEPTH),
            },
            PanelAnchor::Head { .. } => PanelAnchor::World,
        }
    }
}

/// Where a panel is, how large it is, and what it is attached to.
#[derive(Clone, Copy, Debug, PartialEq, Eq, Structural)]
pub struct PanelTransform {
    pub center: Vec3,
    pub right_dir: Vec3,
    pub up_dir: Vec3,
    pub width: Scalar,
    pub height: Scalar,
    pub opacity: Scalar,
    pub anchor: PanelAnchor,
    /// Whether a grip anywhere on the panel grabs it.
    pub grabbable: bool,
}

/// A place in space with its directions.
#[derive(Clone, Copy, Debug, PartialEq, Eq, Structural)]
pub struct Pose {
    pub position: Vec3,
    pub forward: Vec3,
    pub right: Vec3,
    pub up: Vec3,
}

/// A place and size for a panel.
#[derive(Clone, Copy, Debug, PartialEq, Eq, Structural)]
pub struct Placement {
    pub center: Vec3,
    pub right_dir: Vec3,
    pub up_dir: Vec3,
    pub width: Scalar,
    pub height: Scalar,
}

impl Placement {
    /// Upright in front of a viewer and half a metre up, at a distance and enlarged. Only
    /// where the viewer looks along the ground counts; looking straight up or down there
    /// is no such place.
    pub open spec fn level_spec(
        position: Vec3,
        forward: Vec3,
        distance: Scalar,
        scale: Scalar,
    ) -> Option<Placement> {
        let flat = Vec3 { x: forward.x, y: Scalar { bits: 0 }, z: forward.z }.unit_or_zero();
        let up = Vec3::up_spec();
        if flat.is_zero_spec() {
            None
        } else {
            Some(
                Placement {
                    center: position.plus_spec(flat.times_spec(distance)).plus_spec(
                        up.times_spec(Scalar { bits: HALF_BITS }),
                    ),
                    right_dir: flat.cross_spec(up).unit(),
                    up_dir: up,
                    width: Scalar { bits: EYE_HEIGHT }.times(scale),
                    height: Scalar { bits: ONE_BITS }.times(scale),
                },
            )
        }
    }

    /// Upright in front of a viewer, at a distance and enlarged.
    pub fn level(
        position: Vec3,
        forward: Vec3,
        distance: Scalar,
        scale: Scalar,
    ) -> (placed: Option<Placement>)
        ensures
            placed == Placement::level_spec(position, forward, distance, scale),
    {
        let flat = Vec3 { x: forward.x, y: Scalar { bits: 0 }, z: forward.z }.normalize_or_zero();
        if flat.is_zero() {
            return None;
        }
        let up = Vec3::up();
        let raised = up.times(Scalar { bits: HALF_BITS });
        Some(
            Placement {
                center: position.plus(flat.times(distance)).plus(raised),
                right_dir: flat.cross(up).normalize(),
                up_dir: up,
                width: Scalar { bits: EYE_HEIGHT }.product(scale),
                height: Scalar { bits: ONE_BITS }.product(scale),
            },
        )
    }
}

impl Default for PanelTransform {
    fn default() -> (panel: Self)
        ensures
            panel == PanelTransform::initial(),
    {
        PanelTransform {
            center: Vec3::from_bits(0, EYE_HEIGHT, PANEL_DEPTH),
            right_dir: Vec3::from_bits(ONE_BITS, 0, 0),
            up_dir: Vec3::from_bits(0, ONE_BITS, 0),
            width: Scalar { bits: EYE_HEIGHT },
            height: Scalar { bits: ONE_BITS },
            opacity: Scalar { bits: PANEL_OPACITY },
            anchor: PanelAnchor::World,
            grabbable: false,
        }
    }
}

impl PanelTransform {
    /// Upright at eye height in front of the user, anchored to the world.
    pub open spec fn initial() -> PanelTransform {
        PanelTransform {
            center: Vec3::of_bits(0, EYE_HEIGHT, PANEL_DEPTH),
            right_dir: Vec3::of_bits(ONE_BITS, 0, 0),
            up_dir: Vec3::of_bits(0, ONE_BITS, 0),
            width: Scalar { bits: EYE_HEIGHT },
            height: Scalar { bits: ONE_BITS },
            opacity: Scalar { bits: PANEL_OPACITY },
            anchor: PanelAnchor::World,
            grabbable: false,
        }
    }

    /// The panel where its anchor takes it: a world panel stays, a controller panel floats
    /// ahead of the controller, a wrist panel lies small on the inner wrist, a head panel
    /// keeps its offset from the head, and a theater panel stands level in front of it.
    pub open spec fn anchored(self, head: Pose, controller: Pose) -> PanelTransform {
        match self.anchor {
            PanelAnchor::World => self,
            PanelAnchor::Controller { .. } => PanelTransform {
                center: controller.position.plus_spec(
                    controller.forward.times_spec(Scalar { bits: CONTROLLER_AHEAD }),
                ).plus_spec(controller.up.times_spec(Scalar { bits: CONTROLLER_ABOVE })),
                right_dir: controller.right,
                up_dir: controller.up,
                ..self
            },
            PanelAnchor::Wrist { hand } => PanelTransform {
                center: controller.position.plus_spec(
                    controller.right.times_spec(
                        Scalar {
                            bits: match hand {
                                Hand::Left => WRIST_INWARD,
                                Hand::Right => WRIST_OUTWARD,
                            },
                        },
                    ),
                ).plus_spec(controller.up.times_spec(Scalar { bits: WRIST_ABOVE })),
                right_dir: controller.forward,
                up_dir: controller.up,
                width: Scalar { bits: WRIST_WIDTH },
                height: Scalar { bits: WRIST_HEIGHT },
                ..self
            },
            PanelAnchor::Head { offset } => PanelTransform {
                center: head.position.plus_spec(head.forward.times_spec(offset.z)).plus_spec(
                    head.right.times_spec(offset.x),
                ).plus_spec(head.up.times_spec(offset.y)),
                right_dir: head.right,
                up_dir: head.up,
                ..self
            },
            PanelAnchor::Theater { distance, scale } => match Placement::level_spec(
                head.position,
                head.forward,
                distance,
                scale,
            ) {
                Some(placed) => PanelTransform {
                    center: placed.center,
                    right_dir: placed.right_dir,
                    up_dir: placed.up_dir,
                    width: placed.width,
                    height: placed.height,
                    ..self
                },
                None => self,
            },
        }
    }

    /// Update the panel's world-space position based on its anchor mode.
    /// Called each frame by the shell.
    pub fn update_anchor(
        &mut self,
        head_pos: Vec3,
        head_forward: Vec3,
        head_right: Vec3,
        head_up: Vec3,
        controller_pos: Vec3,
        controller_forward: Vec3,
        controller_right: Vec3,
        controller_up: Vec3,
    )
        ensures
            *final(self) == old(self).anchored(
                (Pose {
                    position: head_pos,
                    forward: head_forward,
                    right: head_right,
                    up: head_up,
                }),
                (Pose {
                    position: controller_pos,
                    forward: controller_forward,
                    right: controller_right,
                    up: controller_up,
                }),
            ),
    {
        match self.anchor {
            PanelAnchor::World => {},
            PanelAnchor::Controller { .. } => {
                let ahead = controller_forward.times(Scalar { bits: CONTROLLER_AHEAD });
                let above = controller_up.times(Scalar { bits: CONTROLLER_ABOVE });
                self.center = controller_pos.plus(ahead).plus(above);
                self.right_dir = controller_right;
                self.up_dir = controller_up;
            },
            PanelAnchor::Wrist { hand } => {
                let inward: u32 = match hand {
                    Hand::Left => WRIST_INWARD,  // inner wrist faces right for left hand
                    Hand::Right => WRIST_OUTWARD,
                };
                let aside = controller_right.times(Scalar { bits: inward });
                let above = controller_up.times(Scalar { bits: WRIST_ABOVE });
                self.center = controller_pos.plus(aside).plus(above);
                self.width = Scalar { bits: WRIST_WIDTH };
                self.height = Scalar { bits: WRIST_HEIGHT };
                self.right_dir = controller_forward;
                self.up_dir = controller_up;
            },
            PanelAnchor::Head { offset } => {
                self.center = head_pos.plus(head_forward.times(offset.z)).plus(
                    head_right.times(offset.x),
                ).plus(head_up.times(offset.y));
                self.right_dir = head_right;
                self.up_dir = head_up;
            },
            PanelAnchor::Theater { distance, scale } => {
                if let Some(placed) = Placement::level(head_pos, head_forward, distance, scale) {
                    self.center = placed.center;
                    self.width = placed.width;
                    self.height = placed.height;
                    self.right_dir = placed.right_dir;
                    self.up_dir = placed.up_dir;
                }
            },
        }
    }

    /// How a ray meets the plane of the panel. The panel's middle is at 0.5 of its width
    /// and height, and rows count downwards.
    pub open spec fn meeting(self, ray_origin: Vec3, ray_dir: Vec3) -> PlaneMeeting {
        let half = Scalar { bits: HALF_BITS };
        let normal = self.right_dir.cross_spec(self.up_dir);
        let slope = ray_dir.dot_spec(normal);
        let distance = self.center.minus_spec(ray_origin).dot_spec(normal).over(slope);
        let place = ray_origin.plus_spec(ray_dir.times_spec(distance)).minus_spec(self.center);
        PlaneMeeting {
            slope,
            distance,
            u: place.dot_spec(self.right_dir).over(self.width).plus(half),
            v: half.minus(place.dot_spec(self.up_dir).over(self.height)),
        }
    }

    /// Where a ray hits the panel, or `None` if it misses.
    pub open spec fn hit_by(self, ray_origin: Vec3, ray_dir: Vec3) -> Option<RayHit> {
        let meeting = self.meeting(ray_origin, ray_dir);
        if meeting.on_panel() {
            Some(RayHit { u: meeting.u, v: meeting.v, distance: meeting.distance })
        } else {
            None
        }
    }

    /// Ray-plane intersection: where the ray hits the panel, or `None` if it misses.
    pub fn hit_test(&self, ray_origin: Vec3, ray_dir: Vec3) -> (hit: Option<RayHit>)
        ensures
            hit == self.hit_by(ray_origin, ray_dir),
    {
        let zero = Scalar { bits: 0 };
        let one = Scalar { bits: ONE_BITS };
        let half = Scalar { bits: HALF_BITS };
        let normal = self.right_dir.cross(self.up_dir);
        let slope = ray_dir.dot(normal);
        if slope.abs().less(Scalar { bits: PARALLEL_SLOPE }) {
            return None;
        }
        let distance = self.center.minus(ray_origin).dot(normal).quotient(slope);
        if distance.less(zero) {
            return None;
        }
        let place = ray_origin.plus(ray_dir.times(distance)).minus(self.center);
        let u = place.dot(self.right_dir).quotient(self.width).sum(half);
        let v = half.difference(place.dot(self.up_dir).quotient(self.height));
        let across = u.reaches(zero) && one.reaches(u);
        let down = v.reaches(zero) && one.reaches(v);
        if across && down {
            Some(RayHit { u, v, distance })
        } else {
            None
        }
    }

    /// Cycle to the next anchor mode.
    pub fn cycle_anchor(&mut self)
        ensures
            *final(self) == (PanelTransform { anchor: old(self).anchor.following(), ..*old(self) }),
    {
        self.anchor = match self.anchor {
            PanelAnchor::World => PanelAnchor::Controller { hand: Hand::Right },
            PanelAnchor::Controller { .. } => PanelAnchor::Wrist { hand: Hand::Left },
            PanelAnchor::Wrist { .. } => PanelAnchor::Theater {
                distance: Scalar { bits: THEATER_DISTANCE },
                scale: Scalar { bits: THEATER_SCALE },
            },
            PanelAnchor::Theater { .. } => PanelAnchor::Head {
                offset: Vec3::from_bits(0, 0, HEAD_DEPTH),
            },
            PanelAnchor::Head { .. } => PanelAnchor::World,
        };
    }
}

/// Five steps of the anchor cycle lead from the world back to the world,
/// through every other mode once.
pub proof fn law_anchor_cycle()
    ensures
        ({
            let first = PanelAnchor::World.following();
            let second = first.following();
            let third = second.following();
            let fourth = third.following();
            &&& first is Controller
            &&& second is Wrist
            &&& third is Theater
            &&& fourth is Head
            &&& fourth.following() is World
        }),
{
}

/// From any anchor, at most five steps of the cycle reach the world, and the
/// cycle repeats every five steps after the first.
pub proof fn law_anchor_cycle_repeats(anchor: PanelAnchor)
    ensures
        ({
            let first = anchor.following();
            let second = first.following();
            let third = second.following();
            let fourth = third.following();
            let fifth = fourth.following();
            &&& first is World || second is World || third is World || fourth is World || fifth
                is World
            &&& fifth.following() == first
        }),
{
}

/// The edges belong to the panel: a ray that hits it would also hit it moved onto any
/// edge. A place that is no number is not on it.
pub proof fn law_edges_are_hit(meeting: PlaneMeeting)
    requires
        meeting.on_panel(),
    ensures
        ({
            let zero = Scalar { bits: 0 };
            let one = Scalar { bits: ONE_BITS };
            &&& (PlaneMeeting { u: zero, ..meeting }).on_panel()
            &&& (PlaneMeeting { u: one, ..meeting }).on_panel()
            &&& (PlaneMeeting { v: zero, ..meeting }).on_panel()
            &&& (PlaneMeeting { v: one, ..meeting }).on_panel()
            &&& !meeting.u.is_nan() && !meeting.v.is_nan()
        }),
{
}

/// A hit lies on the panel, ahead of the ray, and is made of numbers only, whatever the
/// panel and the ray are.
pub proof fn law_hits_are_on_the_panel(panel: PanelTransform, ray_origin: Vec3, ray_dir: Vec3)
    ensures
        panel.hit_by(ray_origin, ray_dir) matches Some(hit) ==> {
            let zero = Scalar { bits: 0 };
            let one = Scalar { bits: ONE_BITS };
            &&& zero.at_most(hit.u) && hit.u.at_most(one)
            &&& zero.at_most(hit.v) && hit.v.at_most(one)
            &&& zero.at_most(hit.distance)
            &&& !hit.u.is_nan() && !hit.v.is_nan() && !hit.distance.is_nan()
        },
{
}

/// Moving a panel with its anchor leaves its opacity, its anchor and its
/// grabbing alone, a panel anchored to the world does not move at all, and a panel that
/// was moved is where its anchor takes it.
pub proof fn law_anchor_moves_placement_only(panel: PanelTransform, head: Pose, controller: Pose)
    ensures
        ({
            let moved = panel.anchored(head, controller);
            &&& moved.anchor == panel.anchor
            &&& moved.opacity == panel.opacity
            &&& moved.grabbable == panel.grabbable
            &&& panel.anchor is World ==> moved == panel
            &&& moved.anchored(head, controller) == moved
        }),
{
}

/// A panel that follows a hand does not depend on the head, and one that follows the head
/// does not depend on the hand.
pub proof fn law_anchors_follow_one_thing(
    panel: PanelTransform,
    head: Pose,
    other_head: Pose,
    controller: Pose,
    other_controller: Pose,
)
    ensures
        panel.anchor is Controller || panel.anchor is Wrist ==> panel.anchored(head, controller)
            == panel.anchored(other_head, controller),
        panel.anchor is Head || panel.anchor is Theater ==> panel.anchored(head, controller)
            == panel.anchored(head, other_controller),
{
}

/// A theater panel stays level: it stands upright, and nodding does not move it.
pub proof fn law_theater_stays_level(
    panel: PanelTransform,
    head: Pose,
    controller: Pose,
    nod: Scalar,
)
    requires
        panel.anchor is Theater,
    ensures
        ({
            let nodding = Pose { forward: Vec3 { y: nod, ..head.forward }, ..head };
            panel.anchored(nodding, controller) == panel.anchored(head, controller)
        }),
        panel.anchored(head, controller) == panel || panel.anchored(head, controller).up_dir
            == Vec3::up_spec(),
{
}

/// Each step of the cycle, by what it makes of the anchor: the world is followed by the
/// right controller, any controller by the left wrist, any wrist by the theater five metres
/// away and three times as large, any theater by the head two metres away, and any head by
/// the world.
pub proof fn law_anchor_steps(anchor: PanelAnchor)
    ensures
        anchor is World ==> anchor.following() == (PanelAnchor::Controller { hand: Hand::Right }),
        anchor is Controller ==> anchor.following() == (PanelAnchor::Wrist { hand: Hand::Left }),
        anchor is Wrist ==> anchor.following() is Theater && anchor.following()->distance.bits
            == 0x40a0_0000 && anchor.following()->scale.bits == 0x4040_0000,
        anchor is Theater ==> anchor.following() == (PanelAnchor::Head {
            offset: Vec3::of_bits(0, 0, 0xc000_0000),
        }),
        anchor is Head ==> anchor.following() == PanelAnchor::World,
{
}

/// Where a panel is that follows a hand, from the hand's place and directions: on the
/// controller a quarter metre ahead and five centimetres above, as large as it was; on the
/// wrist eight centimetres inwards, which is to the right of a left hand, and three above,
/// fifteen by ten centimetres large and seen along the arm.
pub proof fn law_panels_at_a_hand(panel: PanelTransform, head: Pose, hand: Pose)
    ensures
        ({
            let at = panel.anchored(head, hand);
            let ahead = hand.forward.times_spec(Scalar { bits: 0x3e80_0000 });
            let above = hand.up.times_spec(Scalar { bits: 0x3d4c_cccd });
            let raised = hand.up.times_spec(Scalar { bits: 0x3cf5_c28f });
            let rightwards = hand.right.times_spec(Scalar { bits: 0x3da3_d70a });
            let leftwards = hand.right.times_spec(Scalar { bits: 0xbda3_d70a });
            &&& panel.anchor is Controller ==> {
                &&& at.center == hand.position.plus_spec(ahead).plus_spec(above)
                &&& at.right_dir == hand.right
                &&& at.up_dir == hand.up
                &&& at.width == panel.width
                &&& at.height == panel.height
            }
            &&& panel.anchor == (PanelAnchor::Wrist { hand: Hand::Left }) ==> at.center
                == hand.position.plus_spec(rightwards).plus_spec(raised)
            &&& panel.anchor == (PanelAnchor::Wrist { hand: Hand::Right }) ==> at.center
                == hand.position.plus_spec(leftwards).plus_spec(raised)
            &&& panel.anchor is Wrist ==> {
                &&& at.right_dir == hand.forward
                &&& at.up_dir == hand.up
                &&& at.width.bits == 0x3e19_999a
                &&& at.height.bits == 0x3dcc_cccd
            }
        }),
{
}

/// Where a panel is that follows the head: its offset counts to the right, upwards and along
/// the view, and it faces the head's way at the size it had.
pub proof fn law_panels_at_the_head(panel: PanelTransform, head: Pose, hand: Pose, offset: Vec3)
    requires
        panel.anchor == (PanelAnchor::Head { offset }),
    ensures
        ({
            let at = panel.anchored(head, hand);
            let onwards = head.position.plus_spec(head.forward.times_spec(offset.z));
            let sideways = onwards.plus_spec(head.right.times_spec(offset.x));
            &&& at.center == sideways.plus_spec(head.up.times_spec(offset.y))
            &&& at.right_dir == head.right
            &&& at.up_dir == head.up
            &&& at.width == panel.width
            &&& at.height == panel.height
        }),
{
}

/// A theater panel stands at its distance along the ground from the viewer and half a metre
/// higher, 1.6 by 1.0 metres large before its scale, square to the view. A viewer who looks
/// straight up or down leaves it where it is.
pub proof fn law_theater_stands_ahead(
    panel: PanelTransform,
    head: Pose,
    hand: Pose,
    distance: Scalar,
    scale: Scalar,
)
    requires
        panel.anchor == (PanelAnchor::Theater { distance, scale }),
    ensures
        ({
            let at = panel.anchored(head, hand);
            let zero = Scalar { bits: 0 };
            let ground = Vec3 { x: head.forward.x, y: zero, z: head.forward.z }.unit_or_zero();
            let up = Vec3::of_bits(0, 0x3f80_0000, 0);
            let there = head.position.plus_spec(ground.times_spec(distance));
            &&& ground.is_zero_spec() ==> at == panel
            &&& !ground.is_zero_spec() ==> {
                &&& at.center == there.plus_spec(up.times_spec(Scalar { bits: 0x3f00_0000 }))
                &&& at.right_dir == ground.cross_spec(up).unit()
                &&& at.up_dir == up
                &&& at.width == (Scalar { bits: 0x3fcc_cccd }).times(scale)
                &&& at.height == (Scalar { bits: 0x3f80_0000 }).times(scale)
            }
        }),
{
}

/// A new panel is upright at eye height two and a half metres ahead.
pub proof fn law_new_panels()
    ensures
        ({
            let panel = PanelTransform::initial();
            &&& panel.center == Vec3::of_bits(0, 0x3fcc_cccd, 0xc020_0000)
            &&& panel.right_dir == Vec3::of_bits(0x3f80_0000, 0, 0)
            &&& panel.up_dir == Vec3::of_bits(0, 0x3f80_0000, 0)
            &&& panel.width.bits == 0x3fcc_cccd
            &&& panel.height.bits == 0x3f80_0000
            &&& panel.opacity.bits == 0x3f73_3333
            &&& panel.anchor is World
            &&& !panel.grabbable
        }),
{
}

/// The plane's place on the ray, and the place on the panel: the ray's origin and the meeting
/// point differ by the direction times the distance, and that point's shares of the width and
/// the height, from the panel's middle, are those of `u` and `v`, the second downwards.
pub proof fn law_rays_meet_the_plane(panel: PanelTransform, origin: Vec3, direction: Vec3)
    ensures
        ({
            let meeting = panel.meeting(origin, direction);
            let half = Scalar { bits: 0x3f00_0000 };
            let normal = panel.right_dir.cross_spec(panel.up_dir);
            let towards = panel.center.minus_spec(origin);
            let point = origin.plus_spec(direction.times_spec(meeting.distance));
            let from_middle = point.minus_spec(panel.center);
            let rightwards = from_middle.dot_spec(panel.right_dir);
            let upwards = from_middle.dot_spec(panel.up_dir);
            &&& meeting.slope == direction.dot_spec(normal)
            &&& meeting.distance == towards.dot_spec(normal).over(direction.dot_spec(normal))
            &&& meeting.u == rightwards.over(panel.width).plus(half)
            &&& meeting.v == half.minus(upwards.over(panel.height))
        }),
{
}

/// What a panel's size does to a hit: only `u` goes by the width and only `v` by the height.
/// Its opacity, its anchor and whether it can be grabbed play no part.
pub proof fn law_sizes_scale_the_hit(
    panel: PanelTransform,
    other: PanelTransform,
    origin: Vec3,
    direction: Vec3,
)
    requires
        panel.center == other.center,
        panel.right_dir == other.right_dir,
        panel.up_dir == other.up_dir,
    ensures
        ({
            let a = panel.meeting(origin, direction);
            let b = other.meeting(origin, direction);
            &&& a.slope == b.slope
            &&& a.distance == b.distance
            &&& panel.width == other.width ==> a.u == b.u
            &&& panel.height == other.height ==> a.v == b.v
            &&& panel.width == other.width && panel.height == other.height ==> panel.hit_by(
                origin,
                direction,
            ) == other.hit_by(origin, direction)
        }),
{
}

/// A ray hits a panel exactly where it meets the plane: not along it, which is a slope under
/// a millionth, not behind the origin, and with both shares between 0 and 1.
pub proof fn law_hits_are_meetings(panel: PanelTransform, origin: Vec3, direction: Vec3)
    ensures
        ({
            let meeting = panel.meeting(origin, direction);
            let hit = panel.hit_by(origin, direction);
            let (zero, one) = (Scalar { bits: 0 }, Scalar { bits: 0x3f80_0000 });
            let along = meeting.slope.unsigned().below(Scalar { bits: 0x3586_37bd });
            let behind = meeting.distance.below(zero);
            let across = zero.at_most(meeting.u) && meeting.u.at_most(one);
            let down = zero.at_most(meeting.v) && meeting.v.at_most(one);
            &&& hit is Some <==> !along && !behind && across && down
            &&& hit is Some ==> hit->0.u == meeting.u
            &&& hit is Some ==> hit->0.v == meeting.v
            &&& hit is Some ==> hit->0.distance == meeting.distance
        }),
{
}

/// Whether every component is no larger than 2 to the 20th, either way.
pub open spec fn nearby(v: Vec3) -> bool {
    within(v.x, 0x4980_0000) && within(v.y, 0x4980_0000) && within(v.z, 0x4980_0000)
}

/// Straight ahead of a panel that stands upright and faces the viewer, a ray hits where it
/// starts: as far to the right and upwards of the panel's middle as its origin is, counted in
/// the panel's width and height from the middle, and as far away as the origin is in front.
/// This holds a thousand kilometres around.
pub proof fn law_straight_rays(panel: PanelTransform, origin: Vec3)
    requires
        panel.right_dir == Vec3::of_bits(0x3f80_0000, 0, 0),
        panel.up_dir == Vec3::of_bits(0, 0x3f80_0000, 0),
        nearby(panel.center),
        nearby(origin),
        panel.width.is_finite() && panel.width.magnitude() > 0,
        panel.height.is_finite() && panel.height.magnitude() > 0,
    ensures
        ({
            let meeting = panel.meeting(origin, Vec3::of_bits(0, 0, 0xbf80_0000));
            let half = Scalar { bits: 0x3f00_0000 };
            let rightwards = origin.x.minus(panel.center.x);
            let upwards = origin.y.minus(panel.center.y);
            let ahead = origin.z.minus(panel.center.z);
            &&& meeting.distance.same_number(ahead)
            &&& meeting.u == rightwards.over(panel.width).plus(half)
            &&& meeting.v == half.minus(upwards.over(panel.height))
            &&& !meeting.slope.unsigned().below(Scalar { bits: 0x3f80_0000 })
        }),
{
    let (zero, one) = (Scalar { bits: 0 }, Scalar { bits: 0x3f80_0000 });
    let minus_one = Scalar { bits: 0xbf80_0000 };
    let half = Scalar { bits: 0x3f00_0000 };
    let ray = Vec3::of_bits(0, 0, 0xbf80_0000);
    let normal = panel.right_dir.cross_spec(panel.up_dir);
    law_times_one(zero);
    law_times_one(one);
    law_one_times(one);
    law_one_times(minus_one);
    lemma_small_units(0);
    law_plus_zero(one, zero.times(zero).negated());
    assert(zero.times(zero) == zero && zero.times(one) == zero && one.times(zero) == zero);
    assert(zero.minus(zero) == zero && zero.plus(zero) == zero);
    assert(normal == Vec3::of_bits(0, 0, 0x3f80_0000));
    let slope = ray.dot_spec(normal);
    law_plus_zero(minus_one, zero);
    assert(slope == minus_one);
    let (center, towards) = (panel.center, panel.center.minus_spec(origin));
    law_sums_stay_within(center.x, origin.x, 0x4980_0000);
    law_sums_stay_within(center.y, origin.y, 0x4980_0000);
    law_sums_stay_within(center.z, origin.z, 0x4980_0000);
    let to_plane = towards.dot_spec(normal);
    law_zero_times(zero, towards.x);
    law_zero_times(zero, towards.y);
    law_one_times(towards.z);
    let sides = towards.x.times(zero).plus(towards.y.times(zero));
    law_plus_zero(towards.x.times(zero), towards.y.times(zero));
    law_plus_zero(towards.z, sides);
    assert(to_plane.same_number(towards.z));
    let distance = to_plane.over(slope);
    law_over_minus_one(to_plane);
    assert(distance == to_plane.negated());
    law_differences_turn_round(center.z, origin.z);
    let moved = ray.times_spec(distance);
    law_zero_times(zero, distance);
    law_one_times(distance);
    assert(moved.z.same_number(towards.z));
    let point = origin.plus_spec(moved);
    law_plus_zero(origin.x, moved.x);
    law_plus_zero(origin.y, moved.y);
    law_sums_stay_within(origin.z, moved.z, 0x4a00_0000);
    let place = point.minus_spec(center);
    law_sums_stay_within(point.z, center.z, 0x4a80_0000);
    law_sums_of_same_numbers(point.x, center.x, origin.x, center.x);
    law_sums_of_same_numbers(point.y, center.y, origin.y, center.y);
    law_sums_stay_within(origin.x, center.x, 0x4980_0000);
    law_sums_stay_within(origin.y, center.y, 0x4980_0000);
    law_zero_times(zero, place.x);
    law_zero_times(zero, place.y);
    law_zero_times(zero, place.z);
    law_one_times(place.x);
    law_one_times(place.y);
    let (x, y, z) = (place.x.times(zero), place.y.times(zero), place.z.times(zero));
    law_plus_zero(place.x, y);
    law_plus_zero(place.x.plus(y), z);
    law_plus_zero(place.y, x);
    law_plus_zero(x.plus(place.y), z);
    let across = place.dot_spec(panel.right_dir);
    let up = place.dot_spec(panel.up_dir);
    assert(across.same_number(origin.x.minus(center.x)));
    assert(up.same_number(origin.y.minus(center.y)));
    law_shifted_quotients(across, origin.x.minus(center.x), panel.width, half);
    law_shifted_quotients(up, origin.y.minus(center.y), panel.height, half);
}

} // verus!
