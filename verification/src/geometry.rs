//! Points, directions and rotations, carried by the bits of their components.

use crate::scalar::{Scalar, INFINITY_BITS};
use vstd::prelude::*;

verus! {

/// A point or direction in space.
#[derive(Clone, Copy, Debug, PartialEq, Eq, Structural)]
pub struct Vec3 {
    pub x: Scalar,
    pub y: Scalar,
    pub z: Scalar,
}

/// Four components, as shaders take them.
#[derive(Clone, Copy, Debug, PartialEq, Eq, Structural)]
pub struct Vec4 {
    pub x: Scalar,
    pub y: Scalar,
    pub z: Scalar,
    pub w: Scalar,
}

/// A rotation.
#[derive(Clone, Copy, Debug, PartialEq, Eq, Structural)]
pub struct Quat {
    pub x: Scalar,
    pub y: Scalar,
    pub z: Scalar,
    pub w: Scalar,
}

/// The bits of 1.0.
pub const ONE_BITS: u32 = 0x3f80_0000;

/// The bits of -1.0.
pub const MINUS_ONE_BITS: u32 = 0xbf80_0000;

impl Vec3 {
    /// The two vectors put end to end.
    pub open spec fn plus_spec(self, other: Vec3) -> Vec3 {
        Vec3 { x: self.x.plus(other.x), y: self.y.plus(other.y), z: self.z.plus(other.z) }
    }

    /// The way from the other vector to this one.
    pub open spec fn minus_spec(self, other: Vec3) -> Vec3 {
        Vec3 { x: self.x.minus(other.x), y: self.y.minus(other.y), z: self.z.minus(other.z) }
    }

    /// The vector at another length.
    pub open spec fn times_spec(self, factor: Scalar) -> Vec3 {
        Vec3 { x: self.x.times(factor), y: self.y.times(factor), z: self.z.times(factor) }
    }

    /// The dot product, added up from x to z.
    pub open spec fn dot_spec(self, other: Vec3) -> Scalar {
        self.x.times(other.x).plus(self.y.times(other.y)).plus(self.z.times(other.z))
    }

    /// The cross product.
    pub open spec fn cross_spec(self, other: Vec3) -> Vec3 {
        Vec3 {
            x: self.y.times(other.z).minus(other.y.times(self.z)),
            y: self.z.times(other.x).minus(other.z.times(self.x)),
            z: self.x.times(other.y).minus(other.x.times(self.y)),
        }
    }

    /// The two vectors put end to end.
    pub fn plus(self, other: Vec3) -> (v: Vec3)
        ensures
            v == self.plus_spec(other),
    {
        Vec3 { x: self.x.sum(other.x), y: self.y.sum(other.y), z: self.z.sum(other.z) }
    }

    /// The way from the other vector to this one.
    pub fn minus(self, other: Vec3) -> (v: Vec3)
        ensures
            v == self.minus_spec(other),
    {
        Vec3 {
            x: self.x.difference(other.x),
            y: self.y.difference(other.y),
            z: self.z.difference(other.z),
        }
    }

    /// The vector at another length.
    pub fn times(self, factor: Scalar) -> (v: Vec3)
        ensures
            v == self.times_spec(factor),
    {
        Vec3 {
            x: self.x.product(factor),
            y: self.y.product(factor),
            z: self.z.product(factor),
        }
    }

    /// The dot product.
    pub fn dot(self, other: Vec3) -> (value: Scalar)
        ensures
            value == self.dot_spec(other),
    {
        self.x.product(other.x).sum(self.y.product(other.y)).sum(self.z.product(other.z))
    }

    /// The cross product.
    pub fn cross(self, other: Vec3) -> (v: Vec3)
        ensures
            v == self.cross_spec(other),
    {
        Vec3 {
            x: self.y.product(other.z).difference(other.y.product(self.z)),
            y: self.z.product(other.x).difference(other.z.product(self.x)),
            z: self.x.product(other.y).difference(other.x.product(self.y)),
        }
    }

    /// The length.
    pub open spec fn length_spec(self) -> Scalar {
        self.dot_spec(self).root()
    }

    /// What the vector is stretched by to have length one.
    pub open spec fn stretch(self) -> Scalar {
        Scalar { bits: ONE_BITS }.over(self.length_spec())
    }

    /// The vector at length one.
    pub open spec fn unit(self) -> Vec3 {
        self.times_spec(self.stretch())
    }

    /// The vector at length one, or zero where that cannot be had: its length is too small
    /// or too large, or no number.
    pub open spec fn unit_or_zero(self) -> Vec3 {
        let zero = Scalar { bits: 0 };
        if zero.below(self.stretch()) && !self.stretch().is_infinite() {
            self.unit()
        } else {
            Vec3 { x: zero, y: zero, z: zero }
        }
    }

    /// Whether every component is zero, of either sign.
    pub open spec fn is_zero_spec(self) -> bool {
        let zero = Scalar { bits: 0 };
        self.x.same_number(zero) && self.y.same_number(zero) && self.z.same_number(zero)
    }

    /// The length.
    pub fn length(self) -> (value: Scalar)
        ensures
            value == self.length_spec(),
    {
        self.dot(self).square_root()
    }

    /// The vector at length one.
    pub fn normalize(self) -> (v: Vec3)
        ensures
            v == self.unit(),
    {
        self.times(Scalar { bits: ONE_BITS }.quotient(self.length()))
    }

    /// The vector at length one, or zero where that cannot be had.
    pub fn normalize_or_zero(self) -> (v: Vec3)
        ensures
            v == self.unit_or_zero(),
    {
        let zero = Scalar { bits: 0 };
        let stretch = Scalar { bits: ONE_BITS }.quotient(self.length());
        if stretch.greater(zero) && stretch.bits != INFINITY_BITS {
            self.times(stretch)
        } else {
            Vec3 { x: zero, y: zero, z: zero }
        }
    }

    /// Whether every component is zero.
    pub fn is_zero(self) -> (answer: bool)
        ensures
            answer == self.is_zero_spec(),
    {
        let zero = Scalar { bits: 0 };
        self.x.equals(zero) && self.y.equals(zero) && self.z.equals(zero)
    }

    /// The direction upwards.
    pub open spec fn up_spec() -> Vec3 {
        Vec3::of_bits(0, ONE_BITS, 0)
    }

    /// The direction upwards.
    pub fn up() -> (v: Vec3)
        ensures
            v == Vec3::up_spec(),
    {
        Vec3::from_bits(0, ONE_BITS, 0)
    }

    /// The vector whose components have these bits.
    pub open spec fn of_bits(x: u32, y: u32, z: u32) -> Vec3 {
        Vec3 { x: Scalar { bits: x }, y: Scalar { bits: y }, z: Scalar { bits: z } }
    }

    /// The vector whose components have these bits.
    pub fn from_bits(x: u32, y: u32, z: u32) -> (v: Vec3)
        ensures
            v == Vec3::of_bits(x, y, z),
    {
        Vec3 { x: Scalar { bits: x }, y: Scalar { bits: y }, z: Scalar { bits: z } }
    }

    /// The origin.
    pub fn zero() -> (v: Vec3)
        ensures
            v == Vec3::of_bits(0, 0, 0),
    {
        Vec3::from_bits(0, 0, 0)
    }
}

impl Vec4 {
    /// All zero.
    pub open spec fn zero_spec() -> Vec4 {
        let zero = Scalar { bits: 0 };
        Vec4 { x: zero, y: zero, z: zero, w: zero }
    }

    /// All zero.
    pub fn zero() -> (v: Vec4)
        ensures
            v == Vec4::zero_spec(),
    {
        let zero = Scalar { bits: 0 };
        Vec4 { x: zero, y: zero, z: zero, w: zero }
    }

    /// A vector with a fourth component.
    pub open spec fn extended(v: Vec3, w: Scalar) -> Vec4 {
        Vec4 { x: v.x, y: v.y, z: v.z, w }
    }

    /// A vector with a fourth component.
    pub fn extend(v: Vec3, w: Scalar) -> (result: Vec4)
        ensures
            result == Vec4::extended(v, w),
    {
        Vec4 { x: v.x, y: v.y, z: v.z, w }
    }
}

impl Quat {
    /// The rotation that turns nothing.
    pub open spec fn identity_spec() -> Quat {
        Quat {
            x: Scalar { bits: 0 },
            y: Scalar { bits: 0 },
            z: Scalar { bits: 0 },
            w: Scalar { bits: ONE_BITS },
        }
    }

    /// The rotation that turns nothing.
    pub fn identity() -> (q: Quat)
        ensures
            q == Quat::identity_spec(),
    {
        Quat {
            x: Scalar { bits: 0 },
            y: Scalar { bits: 0 },
            z: Scalar { bits: 0 },
            w: Scalar { bits: ONE_BITS },
        }
    }
}

/// The vector with its components moved round: y where x was, z where y was, x where z was.
pub open spec fn turned(v: Vec3) -> Vec3 {
    Vec3 { x: v.y, y: v.z, z: v.x }
}

/// No axis is special: moving the components of both vectors round moves those of their sum,
/// their difference, their cross product and the stretched vector round as well. Along each
/// axis, sums, differences and stretched vectors are those of the components there.
pub proof fn law_axes_are_alike(a: Vec3, b: Vec3, factor: Scalar)
    ensures
        turned(a).plus_spec(turned(b)) == turned(a.plus_spec(b)),
        turned(a).minus_spec(turned(b)) == turned(a.minus_spec(b)),
        turned(a).times_spec(factor) == turned(a.times_spec(factor)),
        turned(a).cross_spec(turned(b)) == turned(a.cross_spec(b)),
        a.plus_spec(b).x == a.x.plus(b.x),
        a.minus_spec(b).x == a.x.minus(b.x),
        a.times_spec(factor).x == a.x.times(factor),
{
}

/// The cross product stands on both vectors: along each axis it takes in the two other
/// components of each, the first vector's with the plus sign in the order x, y, z.
pub proof fn law_cross_product(a: Vec3, b: Vec3)
    ensures
        a.cross_spec(b).z == a.x.times(b.y).minus(b.x.times(a.y)),
        a.cross_spec(b).x == a.y.times(b.z).minus(b.y.times(a.z)),
        a.cross_spec(b).y == a.z.times(b.x).minus(b.z.times(a.x)),
{
}

/// The dot product takes each component with its own counterpart, and is the same either way
/// round.
pub proof fn law_dot_product(a: Vec3, b: Vec3)
    ensures
        ({
            let (x, y, z) = (a.x.times(b.x), a.y.times(b.y), a.z.times(b.z));
            a.dot_spec(b) == x.plus(y).plus(z)
        }),
        a.length_spec() == a.dot_spec(a).root(),
{
}

/// A vector at length one is the vector divided by its length, by way of the length's
/// inverse. Where there is none it is all zero, and the zero vector is one of those.
pub proof fn law_unit_vectors(v: Vec3)
    ensures
        ({
            let inverse = Scalar { bits: 0x3f80_0000 }.over(v.dot_spec(v).root());
            &&& v.unit() == v.times_spec(inverse)
            &&& (Scalar { bits: 0 }).below(inverse) && inverse.bits != 0x7f80_0000
                ==> v.unit_or_zero() == v.unit()
            &&& !((Scalar { bits: 0 }).below(inverse) && inverse.bits != 0x7f80_0000)
                ==> v.unit_or_zero() == Vec3::of_bits(0, 0, 0)
        }),
        v.is_zero_spec() <==> (v.x.bits == 0 || v.x.bits == 0x8000_0000) && (v.y.bits == 0
            || v.y.bits == 0x8000_0000) && (v.z.bits == 0 || v.z.bits == 0x8000_0000),
{
}

/// The rotation that turns nothing has only its fourth component, which is one; a vector is
/// extended behind its three components.
pub proof fn law_four_components(v: Vec3, w: Scalar)
    ensures
        ({
            let none = Quat::identity_spec();
            none.x.bits == 0 && none.y.bits == 0 && none.z.bits == 0 && none.w.bits == 0x3f80_0000
        }),
        ({
            let four = Vec4::extended(v, w);
            four.x == v.x && four.y == v.y && four.z == v.z && four.w == w
        }),
        Vec3::up_spec().x.bits == 0,
        Vec3::up_spec().y.bits == 0x3f80_0000,
        Vec3::up_spec().z.bits == 0,
{
}

} // verus!
