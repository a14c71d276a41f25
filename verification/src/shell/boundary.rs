//! Play space boundary visualization.
//!
//! Translucent walls show when the user approaches the edge of their
//! configured play space.

use crate::geometry::{Vec3, ONE_BITS};
use crate::rounding::{
    law_exact_results_are_kept, law_opposites, law_rounding_keeps_order, law_sums_commute,
    law_sums_do_not_pass_numbers, law_sums_keep_order, lemma_one, rounded, UNIT_EXPONENT,
};
use crate::scalar::{lemma_small_units, lemma_units_monotone, magnitude_units, Scalar};
use vstd::arithmetic::power2::{lemma_pow2_pos, pow2};
use vstd::prelude::*;

verus! {

/// 1.5, half the default width and depth.
pub const DEFAULT_HALF_EXTENT: u32 = 0x3fc0_0000;

/// 0.8, the default distance from the edge at which walls appear.
pub const DEFAULT_FADE_DISTANCE: u32 = 0x3f4c_cccd;

/// 0.3, the opacity above which a wall counts as near.
pub const WARNING_OPACITY: u32 = 0x3e99_999a;

/// Rectangular play space boundary.
#[derive(Clone, Copy, Debug, PartialEq, Eq, Structural)]
pub struct Boundary {
    /// Half-extent of the play space in X (meters from center).
    pub half_width: Scalar,
    /// Half-extent of the play space in Z (meters from center).
    pub half_depth: Scalar,
    /// Distance from the edge at which the boundary starts appearing.
    pub fade_distance: Scalar,
    /// Whether the boundary is enabled.
    pub enabled: bool,
}

impl Boundary {
    /// Three meters by three, fading in 0.8 m before the edge, enabled.
    pub open spec fn initial() -> Boundary {
        Boundary {
            half_width: Scalar { bits: DEFAULT_HALF_EXTENT },
            half_depth: Scalar { bits: DEFAULT_HALF_EXTENT },
            fade_distance: Scalar { bits: DEFAULT_FADE_DISTANCE },
            enabled: true,
        }
    }
}

impl Default for Boundary {
    /// A play space of 3m x 3m.
    fn default() -> (boundary: Self)
        ensures
            boundary == Boundary::initial(),
    {
        Boundary {
            half_width: Scalar { bits: DEFAULT_HALF_EXTENT },
            half_depth: Scalar { bits: DEFAULT_HALF_EXTENT },
            fade_distance: Scalar { bits: DEFAULT_FADE_DISTANCE },
            enabled: true,
        }
    }
}

/// Which walls are visible and their opacity (0 = invisible, 1 = fully visible).
#[derive(Clone, Copy, Debug, PartialEq, Eq, Structural)]
pub struct BoundaryVisibility {
    /// -X wall.
    pub left: Scalar,
    /// +X wall.
    pub right: Scalar,
    /// -Z wall.
    pub front: Scalar,
    /// +Z wall.
    pub back: Scalar,
}

impl BoundaryVisibility {
    /// No wall visible.
    pub open spec fn none() -> BoundaryVisibility {
        let clear = Scalar { bits: 0 };
        BoundaryVisibility { left: clear, right: clear, front: clear, back: clear }
    }

    /// Whether some wall is near enough for a warning.
    pub open spec fn any_near(self) -> bool {
        let limit = Scalar { bits: WARNING_OPACITY };
        limit.below(self.left) || limit.below(self.right) || limit.below(self.front)
            || limit.below(self.back)
    }

    /// Whether some wall is near enough for a warning.
    pub fn near(&self) -> (answer: bool)
        ensures
            answer == self.any_near(),
    {
        let limit = Scalar { bits: WARNING_OPACITY };
        self.left.greater(limit) || self.right.greater(limit) || self.front.greater(limit)
            || self.back.greater(limit)
    }
}

impl Default for BoundaryVisibility {
    fn default() -> (visibility: Self)
        ensures
            visibility == BoundaryVisibility::none(),
    {
        let clear = Scalar { bits: 0 };
        BoundaryVisibility { left: clear, right: clear, front: clear, back: clear }
    }
}

impl Boundary {
    /// The opacity of a wall at this distance inside the boundary (negative = outside):
    /// none beyond the fade distance, full at or past the edge, and in between one less
    /// the share of the fade distance that is left.
    pub open spec fn opacity_at(self, distance: Scalar) -> Scalar {
        if self.fade_distance.at_most(distance) {
            Scalar { bits: 0 }
        } else if distance.at_most(Scalar { bits: 0 }) {
            Scalar { bits: ONE_BITS }
        } else {
            (Scalar { bits: ONE_BITS }).minus(distance.over(self.fade_distance))
        }
    }

    /// The opacity of all walls for a user at this position.
    pub open spec fn visibility_at(self, user_pos: Vec3) -> BoundaryVisibility {
        if self.enabled {
            BoundaryVisibility {
                left: self.opacity_at(user_pos.x.plus(self.half_width)),
                right: self.opacity_at(self.half_width.minus(user_pos.x)),
                front: self.opacity_at(user_pos.z.plus(self.half_depth)),
                back: self.opacity_at(self.half_depth.minus(user_pos.z)),
            }
        } else {
            BoundaryVisibility::none()
        }
    }

    /// Set the play space size from the runtime's bounds.
    pub fn set_bounds(&mut self, width: Scalar, depth: Scalar)
        ensures
            *final(self) == (Boundary {
                half_width: width.halved(),
                half_depth: depth.halved(),
                ..*old(self)
            }),
    {
        self.half_width = width.half();
        self.half_depth = depth.half();
    }

    /// Compute wall visibilities based on user position.
    pub fn compute_visibility(&self, user_pos: Vec3) -> (visibility: BoundaryVisibility)
        ensures
            visibility == self.visibility_at(user_pos),
    {
        if !self.enabled {
            return BoundaryVisibility::default();
        }
        BoundaryVisibility {
            left: self.wall_opacity(user_pos.x.sum(self.half_width)),
            right: self.wall_opacity(self.half_width.difference(user_pos.x)),
            front: self.wall_opacity(user_pos.z.sum(self.half_depth)),
            back: self.wall_opacity(self.half_depth.difference(user_pos.z)),
        }
    }

    /// Compute opacity for a single wall based on signed distance from edge.
    pub fn wall_opacity(&self, distance_to_edge: Scalar) -> (opacity: Scalar)
        ensures
            opacity == self.opacity_at(distance_to_edge),
    {
        let edge = Scalar { bits: 0 };
        if distance_to_edge.reaches(self.fade_distance) {
            edge  // far from edge
        } else if edge.reaches(distance_to_edge) {
            Scalar { bits: ONE_BITS }  // at or past edge
        } else {
            let left = distance_to_edge.quotient(self.fade_distance);
            (Scalar { bits: ONE_BITS }).difference(left)
        }
    }
}

/// A disabled boundary shows no wall, so it never gives a warning.
pub proof fn law_disabled_boundary_is_silent(boundary: Boundary, user_pos: Vec3)
    requires
        !boundary.enabled,
    ensures
        boundary.visibility_at(user_pos) == BoundaryVisibility::none(),
        !boundary.visibility_at(user_pos).any_near(),
{
}

/// Far from a wall it is invisible; at or past it, fully visible.
pub proof fn law_walls_clear_and_solid(boundary: Boundary, distance: Scalar)
    requires
        (Scalar { bits: 0 }).below(boundary.fade_distance),
    ensures
        boundary.fade_distance.at_most(distance) ==> boundary.opacity_at(distance).bits == 0,
        distance.at_most(Scalar { bits: 0 }) ==> boundary.opacity_at(distance).bits == ONE_BITS,
{
}

/// The position opposite the center, at the same height.
pub open spec fn opposite(user_pos: Vec3) -> Vec3 {
    Vec3 { x: user_pos.x.negated(), y: user_pos.y, z: user_pos.z.negated() }
}

/// The walls are treated alike: from the opposite position left and right, and front and
/// back, are exchanged. The height has no effect.
pub proof fn law_walls_are_alike(boundary: Boundary, user_pos: Vec3, height: Scalar)
    ensures
        ({
            let seen = boundary.visibility_at(user_pos);
            &&& boundary.visibility_at(opposite(user_pos)) == BoundaryVisibility {
                left: seen.right,
                right: seen.left,
                front: seen.back,
                back: seen.front,
            }
            &&& boundary.visibility_at(Vec3 { y: height, ..user_pos }) == seen
        }),
{
    law_sums_commute(boundary.half_width, user_pos.x);
    law_sums_commute(boundary.half_width, user_pos.x.negated());
    law_sums_commute(user_pos.x, user_pos.x);
    law_sums_commute(boundary.half_depth, user_pos.z);
    law_sums_commute(boundary.half_depth, user_pos.z.negated());
    law_sums_commute(user_pos.z, user_pos.z);
}

/// The share of the fade distance that is left, while a wall fades.
proof fn lemma_share(distance: Scalar, fade: Scalar)
    requires
        (Scalar { bits: 0 }).below(distance),
        distance.below(fade),
    ensures
        0 <= distance.over(fade).bits <= ONE_BITS,
        fade.is_finite() ==> distance.over(fade).bits == rounded(
            magnitude_units(distance.bits as int) * pow2(UNIT_EXPONENT as nat),
            magnitude_units(fade.bits as int),
        ),
        fade.is_infinite() ==> distance.over(fade).bits == 0,
{
    if fade.is_finite() {
        let n = magnitude_units(distance.bits as int) * pow2(UNIT_EXPONENT as nat);
        let d = magnitude_units(fade.bits as int);
        lemma_small_units(0);
        lemma_units_monotone(0, distance.bits as int);
        lemma_units_monotone(distance.bits as int, fade.bits as int);
        lemma_one();
        let one = magnitude_units(ONE_BITS as int);
        assert(0 <= n <= one * d) by (nonlinear_arith)
            requires
                n == magnitude_units(distance.bits as int) * one,
                0 <= magnitude_units(distance.bits as int) <= d,
                one >= 0,
        ;
        law_rounding_keeps_order(n, one * d, d);
        law_exact_results_are_kept(ONE_BITS as int, d);
    }
}

/// One less a share.
proof fn lemma_rest(share: Scalar)
    requires
        share.bits <= ONE_BITS,
    ensures
        ({
            let rest = (Scalar { bits: ONE_BITS }).minus(share);
            let total = pow2(UNIT_EXPONENT as nat) - magnitude_units(share.bits as int);
            &&& 0 <= total <= pow2(UNIT_EXPONENT as nat)
            &&& rest.bits <= ONE_BITS
            &&& rest.bits == rounded(total, 1)
        }),
{
    let one = Scalar { bits: ONE_BITS };
    let total = magnitude_units(ONE_BITS as int) - magnitude_units(share.bits as int);
    lemma_one();
    lemma_small_units(0);
    if share.bits > 0 {
        lemma_units_monotone(0, share.bits as int);
    }
    if share.bits < ONE_BITS {
        lemma_units_monotone(share.bits as int, ONE_BITS as int);
    }
    assert(one.units() + share.negated().units() == total);
    law_rounding_keeps_order(total, magnitude_units(ONE_BITS as int), 1);
    law_exact_results_are_kept(ONE_BITS as int, 1);
    law_exact_results_are_kept(0, 1);
}

/// An opacity lies between none and full, at every distance that is a number.
pub proof fn law_opacity_is_a_share(boundary: Boundary, distance: Scalar)
    requires
        (Scalar { bits: 0 }).below(boundary.fade_distance),
        !distance.is_nan(),
    ensures
        (Scalar { bits: 0 }).at_most(boundary.opacity_at(distance)),
        boundary.opacity_at(distance).at_most(Scalar { bits: ONE_BITS }),
        boundary.opacity_at(distance).bits <= ONE_BITS,
{
    if !boundary.fade_distance.at_most(distance) && !distance.at_most(Scalar { bits: 0 }) {
        lemma_share(distance, boundary.fade_distance);
        lemma_rest(distance.over(boundary.fade_distance));
    }
}

/// A wall never gets clearer on the way towards it: the opacity does not rise as the
/// distance grows.
pub proof fn law_walls_appear_on_approach(boundary: Boundary, near: Scalar, far: Scalar)
    requires
        (Scalar { bits: 0 }).below(boundary.fade_distance),
        near.at_most(far),
    ensures
        boundary.opacity_at(far).at_most(boundary.opacity_at(near)),
{
    let zero = Scalar { bits: 0 };
    let fade = boundary.fade_distance;
    law_opacity_is_a_share(boundary, near);
    law_opacity_is_a_share(boundary, far);
    if zero.below(near) && far.below(fade) {
        lemma_share(near, fade);
        lemma_share(far, fade);
        let (a, b) = (near.over(fade), far.over(fade));
        assert(a.bits <= b.bits) by {
            if fade.is_finite() {
                let d = magnitude_units(fade.bits as int);
                let one = pow2(UNIT_EXPONENT as nat) as int;
                let (m, n) = (magnitude_units(near.bits as int), magnitude_units(far.bits as int));
                lemma_small_units(0);
                lemma_units_monotone(0, near.bits as int);
                lemma_units_monotone(0, fade.bits as int);
                if near.bits < far.bits {
                    lemma_units_monotone(near.bits as int, far.bits as int);
                }
                lemma_pow2_pos(UNIT_EXPONENT as nat);
                assert(0 <= m * one <= n * one) by (nonlinear_arith)
                    requires
                        0 <= m <= n,
                        0 < one,
                ;
                law_rounding_keeps_order(m * one, n * one, d);
            }
        }
        lemma_rest(a);
        lemma_rest(b);
        if a.bits < b.bits {
            lemma_units_monotone(a.bits as int, b.bits as int);
        }
        let whole = pow2(UNIT_EXPONENT as nat) as int;
        law_rounding_keeps_order(
            whole - magnitude_units(b.bits as int),
            whole - magnitude_units(a.bits as int),
            1,
        );
    }
}

/// The walls stand at the edges of the play space: the left one half the width to the left
/// of its center and the right one as far to the right, the front one half the depth in
/// front and the back one as far behind. Whoever is at an edge or past it sees that wall in
/// full, and whoever is at least the fade distance away from it does not see it.
pub proof fn law_walls_stand_at_the_edges(boundary: Boundary, user_pos: Vec3)
    requires
        boundary.enabled,
        boundary.half_width.is_finite(),
        boundary.half_depth.is_finite(),
        boundary.fade_distance.is_finite(),
        (Scalar { bits: 0 }).below(boundary.fade_distance),
        user_pos.x.is_finite(),
        user_pos.z.is_finite(),
    ensures
        ({
            let seen = boundary.visibility_at(user_pos);
            let (x, z) = (user_pos.x.units(), user_pos.z.units());
            let (width, depth) = (boundary.half_width.units(), boundary.half_depth.units());
            let fade = boundary.fade_distance.units();
            &&& x <= -width ==> seen.left.bits == ONE_BITS
            &&& x >= width ==> seen.right.bits == ONE_BITS
            &&& z <= -depth ==> seen.front.bits == ONE_BITS
            &&& z >= depth ==> seen.back.bits == ONE_BITS
            &&& x + width >= fade ==> seen.left.bits == 0
            &&& width - x >= fade ==> seen.right.bits == 0
            &&& z + depth >= fade ==> seen.front.bits == 0
            &&& depth - z >= fade ==> seen.back.bits == 0
        }),
{
    let fade = boundary.fade_distance;
    let zero = Scalar { bits: 0 };
    let (x, z) = (user_pos.x, user_pos.z);
    let (width, depth) = (boundary.half_width, boundary.half_depth);
    lemma_small_units(0);
    law_opposites(x, x);
    law_opposites(z, z);
    law_sums_do_not_pass_numbers(x, width, zero);
    law_sums_do_not_pass_numbers(x, width, fade);
    law_sums_do_not_pass_numbers(width, x.negated(), zero);
    law_sums_do_not_pass_numbers(width, x.negated(), fade);
    law_sums_do_not_pass_numbers(z, depth, zero);
    law_sums_do_not_pass_numbers(z, depth, fade);
    law_sums_do_not_pass_numbers(depth, z.negated(), zero);
    law_sums_do_not_pass_numbers(depth, z.negated(), fade);
}

/// Walking towards a wall shows it no less, and the wall behind no more: from left to right
/// for the walls at the sides, from front to back for the others.
pub proof fn law_walls_show_on_the_way(boundary: Boundary, from: Vec3, to: Vec3)
    requires
        boundary.enabled,
        boundary.half_width.is_finite(),
        boundary.half_depth.is_finite(),
        (Scalar { bits: 0 }).below(boundary.fade_distance),
        from.x.is_finite(),
        from.z.is_finite(),
        to.x.is_finite(),
        to.z.is_finite(),
        from.x.at_most(to.x),
        from.z.at_most(to.z),
    ensures
        ({
            let before = boundary.visibility_at(from);
            let after = boundary.visibility_at(to);
            &&& before.right.at_most(after.right)
            &&& after.left.at_most(before.left)
            &&& before.back.at_most(after.back)
            &&& after.front.at_most(before.front)
        }),
{
    let (width, depth) = (boundary.half_width, boundary.half_depth);
    law_sums_keep_order(from.x, to.x, width);
    law_sums_keep_order(from.z, to.z, depth);
    law_sums_keep_order(to.x.negated(), from.x.negated(), width);
    law_sums_keep_order(to.z.negated(), from.z.negated(), depth);
    law_sums_commute(width, to.x.negated());
    law_sums_commute(width, from.x.negated());
    law_sums_commute(depth, to.z.negated());
    law_sums_commute(depth, from.z.negated());
    law_walls_appear_on_approach(boundary, from.x.plus(width), to.x.plus(width));
    law_walls_appear_on_approach(boundary, from.z.plus(depth), to.z.plus(depth));
    law_walls_appear_on_approach(boundary, width.minus(to.x), width.minus(from.x));
    law_walls_appear_on_approach(boundary, depth.minus(to.z), depth.minus(from.z));
}

/// While it fades, a wall is as opaque as the share of the fade distance that was walked.
pub proof fn law_walls_fade_evenly(boundary: Boundary, distance: Scalar)
    requires
        (Scalar { bits: 0 }).below(distance),
        distance.below(boundary.fade_distance),
    ensures
        boundary.opacity_at(distance) == (Scalar { bits: ONE_BITS }).minus(
            distance.over(boundary.fade_distance),
        ),
{
}

/// A wall is near when it is more than 0.3 opaque, whichever it is.
pub proof fn law_near_walls(seen: BoundaryVisibility)
    ensures
        ({
            let limit = Scalar { bits: 0x3e99_999a };
            let near = limit.below(seen.left) || limit.below(seen.right) || limit.below(
                seen.front,
            ) || limit.below(seen.back);
            seen.any_near() == near
        }),
{
}

/// A new boundary is three metres each way, fades in over the last 0.8 and is enabled.
pub proof fn law_new_boundary()
    ensures
        ({
            let boundary = Boundary::initial();
            &&& boundary.half_width.bits == 0x3fc0_0000
            &&& boundary.half_depth.bits == 0x3fc0_0000
            &&& boundary.fade_distance.bits == 0x3f4c_cccd
            &&& boundary.enabled
        }),
{
}

} // verus!
