//! Single-precision values held by their bit patterns.
//!
//! The library carries analog values (triggers, thumbsticks, texture
//! coordinates, distances) as the bits of IEEE 754 singles and orders them by
//! those bits.

use vstd::arithmetic::power2::{lemma_pow2_pos, lemma_pow2_unfold, pow2};
use vstd::prelude::*;

verus! {

/// The sign bit of a single, as a number.
pub const SIGN_BIT: u32 = 0x8000_0000;

/// The bits of positive infinity; larger magnitudes are not numbers.
pub const INFINITY_BITS: u32 = 0x7f80_0000;

/// A single-precision floating-point value, by its bits.
#[derive(Clone, Copy, Debug, PartialEq, Eq, Structural)]
pub struct Scalar {
    pub bits: u32,
}

impl Scalar {
    /// The bits without the sign.
    pub open spec fn magnitude(self) -> int {
        if self.bits < SIGN_BIT {
            self.bits as int
        } else {
            self.bits - SIGN_BIT
        }
    }

    /// Whether the bits encode no number.
    pub open spec fn is_nan(self) -> bool {
        self.magnitude() > INFINITY_BITS
    }

    /// Whether the bits encode a finite number.
    pub open spec fn is_finite(self) -> bool {
        self.magnitude() < INFINITY_BITS
    }

    /// Where the value stands among all numbers: numbers compare as their
    /// ranks do, and both zeros have rank zero.
    pub open spec fn rank(self) -> int {
        if self.bits < SIGN_BIT {
            self.bits as int
        } else {
            SIGN_BIT - self.bits
        }
    }

    /// `self < other`, false whenever either side is no number.
    pub open spec fn below(self, other: Scalar) -> bool {
        !self.is_nan() && !other.is_nan() && self.rank() < other.rank()
    }

    /// `self <= other`, false whenever either side is no number.
    pub open spec fn at_most(self, other: Scalar) -> bool {
        !self.is_nan() && !other.is_nan() && self.rank() <= other.rank()
    }

    /// `self == other` as numbers: zeros are equal, and what is no number
    /// equals nothing.
    pub open spec fn same_number(self, other: Scalar) -> bool {
        !self.is_nan() && !other.is_nan() && self.rank() == other.rank()
    }

    /// The value without its sign.
    pub open spec fn unsigned(self) -> Scalar {
        Scalar { bits: self.magnitude() as u32 }
    }

    /// Half the value, rounded to the nearest single (ties to even): one less in
    /// the exponent where the exponent allows it, and a halved fraction below.
    /// What is not finite stays.
    pub open spec fn halved(self) -> Scalar {
        let sign = self.bits - self.magnitude();
        if self.is_finite() {
            Scalar { bits: (sign + halved_magnitude(self.magnitude())) as u32 }
        } else {
            self
        }
    }

    /// The number that the bits encode, counted in units of the smallest
    /// positive single.
    pub open spec fn units(self) -> int {
        if self.bits < SIGN_BIT {
            magnitude_units(self.magnitude())
        } else {
            -magnitude_units(self.magnitude())
        }
    }

    /// The value with these bits.
    pub fn from_bits(bits: u32) -> (value: Scalar)
        ensures
            value.bits == bits,
    {
        Scalar { bits }
    }

    /// The bits of the value.
    pub fn to_bits(self) -> (bits: u32)
        ensures
            bits == self.bits,
    {
        self.bits
    }

    fn exec_magnitude(self) -> (magnitude: u32)
        ensures
            magnitude == self.magnitude(),
    {
        if self.bits < SIGN_BIT {
            self.bits
        } else {
            self.bits - SIGN_BIT
        }
    }

    fn exec_rank(self) -> (rank: i64)
        ensures
            rank == self.rank(),
    {
        if self.bits < SIGN_BIT {
            self.bits as i64
        } else {
            SIGN_BIT as i64 - self.bits as i64
        }
    }

    /// Whether the value is no number.
    pub fn nan(self) -> (answer: bool)
        ensures
            answer == self.is_nan(),
    {
        self.exec_magnitude() > INFINITY_BITS
    }

    /// `self < other`.
    pub fn less(self, other: Scalar) -> (answer: bool)
        ensures
            answer == self.below(other),
    {
        !self.nan() && !other.nan() && self.exec_rank() < other.exec_rank()
    }

    /// `self > other`.
    pub fn greater(self, other: Scalar) -> (answer: bool)
        ensures
            answer == other.below(self),
    {
        other.less(self)
    }

    /// `self >= other`.
    pub fn reaches(self, other: Scalar) -> (answer: bool)
        ensures
            answer == other.at_most(self),
    {
        !self.nan() && !other.nan() && other.exec_rank() <= self.exec_rank()
    }

    /// Whether `self` ranks no higher than `other`.
    pub fn ranks_at_most(self, other: Scalar) -> (answer: bool)
        ensures
            answer == (self.rank() <= other.rank()),
    {
        self.exec_rank() <= other.exec_rank()
    }

    /// `self == other`, as numbers.
    pub fn equals(self, other: Scalar) -> (answer: bool)
        ensures
            answer == self.same_number(other),
    {
        !self.nan() && !other.nan() && self.exec_rank() == other.exec_rank()
    }

    /// Half the value.
    pub fn half(self) -> (value: Scalar)
        ensures
            value == self.halved(),
    {
        let magnitude = self.exec_magnitude();
        let sign: u32 = self.bits - magnitude;
        if magnitude >= INFINITY_BITS {
            self
        } else if magnitude >= 0x100_0000 {
            Scalar { bits: sign + (magnitude - 0x80_0000) }
        } else {
            let whole: u32 = magnitude / 2;
            if magnitude % 2 == 0 || whole % 2 == 0 {
                Scalar { bits: sign + whole }
            } else {
                Scalar { bits: sign + (whole + 1) }
            }
        }
    }

    /// The absolute value.
    pub fn abs(self) -> (value: Scalar)
        ensures
            value == self.unsigned(),
    {
        Scalar { bits: self.exec_magnitude() }
    }
}

/// The size of one step of the fraction, in the low 23 bits of a single.
pub open spec fn fraction_span() -> int {
    0x80_0000
}

/// The number that a magnitude below infinity encodes, in units of the
/// smallest positive single: the fraction itself under exponent zero, and the
/// fraction with its leading one scaled by the exponent above that.
pub open spec fn magnitude_units(magnitude: int) -> int {
    let exponent = magnitude / fraction_span();
    let fraction = magnitude % fraction_span();
    if exponent <= 0 {
        fraction
    } else {
        (fraction + fraction_span()) * pow2((exponent - 1) as nat)
    }
}

/// Half of a magnitude below infinity, to the nearest magnitude, ties to even.
pub open spec fn halved_magnitude(magnitude: int) -> int {
    if magnitude >= 2 * fraction_span() {
        magnitude - fraction_span()
    } else if magnitude % 2 == 0 || (magnitude / 2) % 2 == 0 {
        magnitude / 2
    } else {
        magnitude / 2 + 1
    }
}

/// Halving halves: twice the half of a finite value is the value itself, but
/// for one unit where the smallest singles leave no half.
pub proof fn law_half_of_number(a: Scalar)
    requires
        a.is_finite(),
    ensures
        a.halved().is_finite(),
        -1 <= 2 * a.halved().units() - a.units() <= 1,
        a.magnitude() >= 2 * fraction_span() ==> 2 * a.halved().units() == a.units(),
{
    let span = fraction_span();
    let m = a.magnitude();
    let h = halved_magnitude(m);
    if m >= 2 * span {
        let exponent = m / span;
        assert(h / span == exponent - 1 && h % span == m % span);
        lemma_pow2_unfold((exponent - 1) as nat);
        let wide = pow2((exponent - 1) as nat);
        let narrow = pow2((exponent - 2) as nat);
        assert(wide == 2 * narrow);
        assert((m % span + span) * wide == 2 * ((m % span + span) * narrow)) by (nonlinear_arith)
            requires
                wide == 2 * narrow,
        ;
        assert(magnitude_units(m) == 2 * magnitude_units(h));
    } else {
        lemma_small_units(m);
        lemma_small_units(h);
    }
}

/// The smallest magnitudes count themselves.
pub proof fn lemma_small_units(magnitude: int)
    requires
        0 <= magnitude < 2 * fraction_span(),
    ensures
        magnitude_units(magnitude) == magnitude,
{
    vstd::arithmetic::power2::lemma2_to64();
    let span = fraction_span();
    if magnitude >= span {
        assert(magnitude / span == 1 && magnitude % span == magnitude - span);
        let scale = pow2((magnitude / span - 1) as nat);
        assert(scale == 1);
        assert(magnitude * scale == magnitude) by (nonlinear_arith)
            requires
                scale == 1,
        ;
    } else {
        assert(magnitude / span == 0 && magnitude % span == magnitude);
    }
}

proof fn lemma_units_step(magnitude: int)
    requires
        0 <= magnitude,
    ensures
        magnitude_units(magnitude) < magnitude_units(magnitude + 1),
{
    let span = fraction_span();
    let exponent = magnitude / span;
    let fraction = magnitude % span;
    if fraction + 1 < span {
        assert((magnitude + 1) / span == exponent && (magnitude + 1) % span == fraction + 1);
        if exponent > 0 {
            let scale = pow2((exponent - 1) as nat);
            lemma_pow2_pos((exponent - 1) as nat);
            assert((fraction + span) * scale < (fraction + 1 + span) * scale) by (nonlinear_arith)
                requires
                    scale > 0,
            ;
        }
    } else {
        assert((magnitude + 1) / span == exponent + 1 && (magnitude + 1) % span == 0);
        let wider = pow2(exponent as nat);
        if exponent > 0 {
            let scale = pow2((exponent - 1) as nat);
            lemma_pow2_pos((exponent - 1) as nat);
            lemma_pow2_unfold(exponent as nat);
            assert(wider == 2 * scale);
            assert((fraction + span) * scale < span * (2 * scale)) by (nonlinear_arith)
                requires
                    scale > 0,
                    fraction + 1 == span,
            ;
        } else {
            vstd::arithmetic::power2::lemma2_to64();
            assert(wider == 1);
        }
    }
}

/// Larger magnitudes count more.
pub proof fn lemma_units_monotone(low: int, high: int)
    requires
        0 <= low < high,
    ensures
        magnitude_units(low) < magnitude_units(high),
    decreases high - low,
{
    lemma_units_step(high - 1);
    if low < high - 1 {
        lemma_units_monotone(low, high - 1);
    }
}

/// Finite values compare as the numbers that they encode.
pub proof fn law_rank_orders_numbers(a: Scalar, b: Scalar)
    requires
        a.is_finite(),
        b.is_finite(),
    ensures
        a.below(b) <==> a.units() < b.units(),
        a.at_most(b) <==> a.units() <= b.units(),
        a.same_number(b) <==> a.units() == b.units(),
{
    let m = a.magnitude();
    let n = b.magnitude();
    assert(magnitude_units(0) == 0);
    if m > 0 {
        lemma_units_monotone(0, m);
    }
    if n > 0 {
        lemma_units_monotone(0, n);
    }
    if m < n {
        lemma_units_monotone(m, n);
    }
    if n < m {
        lemma_units_monotone(n, m);
    }
}

/// Of two numbers exactly one of `<`, `==` and `>` holds; of anything else
/// none does.
pub proof fn law_trichotomy(a: Scalar, b: Scalar)
    ensures
        !a.is_nan() && !b.is_nan() ==> (a.below(b) || a.same_number(b) || b.below(a)),
        !(a.below(b) && b.below(a)),
        !(a.below(b) && a.same_number(b)),
        a.is_nan() || b.is_nan() ==> !a.below(b) && !a.at_most(b) && !a.same_number(b),
{
}

/// The absolute value is not negative, keeps the size of the number, and is its
/// own absolute value.
pub proof fn law_unsigned(a: Scalar)
    ensures
        a.unsigned().unsigned() == a.unsigned(),
        a.unsigned().rank() >= 0,
        a.unsigned().rank() == a.rank() || a.unsigned().rank() == -a.rank(),
        a.unsigned().is_nan() == a.is_nan(),
{
}

} // verus!
