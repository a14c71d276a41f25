//! Square roots of singles, rounded as IEEE 754 has it: to the nearest single.

use crate::rounding::{capped, lemma_packed, split, NAN_BITS, UNIT_EXPONENT};
use crate::scalar::{
    fraction_span, lemma_small_units, lemma_units_monotone, magnitude_units, Scalar, INFINITY_BITS,
};
use vstd::arithmetic::power2::{lemma_pow2_adds, lemma_pow2_pos, lemma_pow2_unfold, pow2};
use vstd::prelude::*;

verus! {

/// Whether the square root of a number rounds to a magnitude: it lies between the middles
/// to the magnitude's neighbours, on a middle only if the magnitude is even.
pub open spec fn root_rounds_to(magnitude: int, n: int) -> bool {
    let below = magnitude_units(magnitude - 1) + magnitude_units(magnitude);
    let above = magnitude_units(magnitude) + magnitude_units(magnitude + 1);
    &&& magnitude >= 0
    &&& magnitude == 0 || below * below < 4 * n || (below * below == 4 * n && magnitude % 2 == 0)
    &&& 4 * n < above * above || (4 * n == above * above && magnitude % 2 == 0)
}

/// The magnitude that the square root of a number rounds to.
pub open spec fn root_rounded(n: int) -> int {
    choose|magnitude: int| root_rounds_to(magnitude, n)
}

impl Scalar {
    /// The square root; of a negative number there is none.
    pub open spec fn root(self) -> Scalar {
        if self.is_nan() {
            Scalar { bits: NAN_BITS }
        } else if self.magnitude() == 0 {
            self
        } else if self.signed() {
            Scalar { bits: NAN_BITS }
        } else if self.is_infinite() {
            self
        } else {
            let n = magnitude_units(self.magnitude()) * pow2(UNIT_EXPONENT as nat);
            Scalar { bits: capped(root_rounded(n)) }
        }
    }

    /// The square root.
    pub fn square_root(self) -> (value: Scalar)
        ensures
            value == self.root(),
    {
        let size = self.size();
        if size > INFINITY_BITS {
            Scalar { bits: NAN_BITS }
        } else if size == 0 {
            self
        } else if self.sign() {
            Scalar { bits: NAN_BITS }
        } else if size == INFINITY_BITS {
            self
        } else {
            Scalar { bits: root_of(size) }
        }
    }
}

proof fn lemma_squares_keep_order(a: int, b: int)
    requires
        0 <= a <= b,
    ensures
        a * a <= b * b,
        a < b ==> a * a < b * b,
{
    assert(a * a <= b * b) by (nonlinear_arith)
        requires
            0 <= a <= b,
    ;
    if a < b {
        assert(a * a < b * b) by (nonlinear_arith)
            requires
                0 <= a < b,
        ;
    }
}

proof fn lemma_units_not_negative(m: int)
    requires
        m >= 0,
    ensures
        magnitude_units(m) >= 0,
{
    lemma_small_units(0);
    if m > 0 {
        lemma_units_monotone(0, m);
    }
}

/// A root rounds to one magnitude only.
proof fn lemma_root_is(m: int, n: int)
    requires
        root_rounds_to(m, n),
    ensures
        root_rounded(n) == m,
{
    let other = root_rounded(n);
    law_roots_keep_order(other, n, m, n);
    law_roots_keep_order(m, n, other, n);
}

/// Rounding the root of a whole number under an exponent, by its whole root.
proof fn lemma_round_root(g: int, c: int, x: int)
    requires
        c * c <= g < (c + 1) * (c + 1),
        fraction_span() <= c < 2 * fraction_span(),
        0 <= x,
    ensures
        ({
            let p = pow2(x as nat) as int;
            let m = x * fraction_span() + c;
            root_rounds_to(
                if g > c * c + c {
                    m + 1
                } else {
                    m
                },
                g * (p * p),
            )
        }),
{
    let p = pow2(x as nat) as int;
    let m = x * fraction_span() + c;
    let n = g * (p * p);
    lemma_pow2_pos(x as nat);
    lemma_packed(c, x);
    lemma_packed(c + 1, x);
    assert(0 <= x * fraction_span()) by (nonlinear_arith)
        requires
            x >= 0,
            fraction_span() == 0x80_0000,
    ;
    let u0 = magnitude_units(m);
    let u1 = magnitude_units(m + 1);
    let middle = u0 + u1;
    assert(middle * middle == ((2 * c + 1) * (2 * c + 1)) * (p * p)) by (nonlinear_arith)
        requires
            middle == u0 + u1,
            u0 == c * p,
            u1 == (c + 1) * p,
    ;
    assert(0 < p * p) by (nonlinear_arith)
        requires
            p > 0,
    ;
    assert((2 * c + 1) * (2 * c + 1) == 4 * (c * c + c) + 1) by (nonlinear_arith);
    if g > c * c + c {
        let u2 = magnitude_units(m + 2);
        lemma_units_monotone(m + 1, m + 2);
        assert(4 * n > middle * middle) by (nonlinear_arith)
            requires
                n == g * (p * p),
                middle * middle == (4 * (c * c + c) + 1) * (p * p),
                g >= c * c + c + 1,
                p * p > 0,
        ;
        lemma_units_not_negative(m + 1);
        lemma_squares_keep_order(2 * u1, u1 + u2);
        assert((2 * u1) * (2 * u1) == 4 * (((c + 1) * (c + 1)) * (p * p))) by (nonlinear_arith)
            requires
                u1 == (c + 1) * p,
        ;
        assert(n < ((c + 1) * (c + 1)) * (p * p)) by (nonlinear_arith)
            requires
                n == g * (p * p),
                g < (c + 1) * (c + 1),
                p * p > 0,
        ;
    } else {
        let before = magnitude_units(m - 1);
        lemma_units_monotone(m - 1, m);
        assert(4 * n < middle * middle) by (nonlinear_arith)
            requires
                n == g * (p * p),
                middle * middle == (4 * (c * c + c) + 1) * (p * p),
                g <= c * c + c,
                p * p > 0,
        ;
        lemma_units_not_negative(m - 1);
        lemma_squares_keep_order(before + u0, 2 * u0);
        assert((2 * u0) * (2 * u0) == 4 * ((c * c) * (p * p))) by (nonlinear_arith)
            requires
                u0 == c * p,
        ;
        assert(n >= (c * c) * (p * p)) by (nonlinear_arith)
            requires
                n == g * (p * p),
                g >= c * c,
                p * p > 0,
        ;
    }
}

/// The whole part of the square root.
fn whole_root(g: u64) -> (c: u64)
    requires
        g < 0x1_0000_0000_0000,
    ensures
        c * c <= g < (c + 1) * (c + 1),
        c < 0x100_0000,
{
    let mut low: u64 = 0;
    let mut high: u64 = 0x100_0000;
    while high - low > 1
        invariant
            0 <= low < high <= 0x100_0000,
            low * low <= g < high * high,
        decreases high - low,
    {
        let middle: u64 = low + (high - low) / 2;
        assert(middle * middle < 0x1_0000_0000_0000) by (nonlinear_arith)
            requires
                0 <= middle < 0x100_0000,
        ;
        if middle * middle <= g {
            low = middle;
        } else {
            high = middle;
        }
    }
    low
}

/// The magnitude of the square root of a magnitude.
fn root_of(size: u32) -> (magnitude: u32)
    requires
        0 < size < INFINITY_BITS,
    ensures
        magnitude == capped(
            root_rounded(magnitude_units(size as int) * pow2(UNIT_EXPONENT as nat)),
        ),
{
    let ghost n = magnitude_units(size as int) * pow2(UNIT_EXPONENT as nat);
    let (fraction, exponent) = split(size);
    let mut g: u64 = fraction;
    let mut k: u32 = exponent + UNIT_EXPONENT;
    proof {
        vstd::arithmetic::power2::lemma2_to64();
        vstd::arithmetic::power2::lemma2_to64_rest();
        lemma_small_units(0);
        lemma_units_monotone(0, size as int);
        lemma_pow2_adds(exponent as nat, UNIT_EXPONENT as nat);
        assert(n == g * pow2(k as nat)) by (nonlinear_arith)
            requires
                n == (fraction * pow2(exponent as nat)) * pow2(UNIT_EXPONENT as nat),
                g == fraction,
                pow2(exponent as nat) * pow2(UNIT_EXPONENT as nat) == pow2(k as nat),
        ;
        assert(g > 0) by (nonlinear_arith)
            requires
                g * pow2(exponent as nat) > 0,
                g >= 0,
        ;
    }
    if k % 2 == 1 {
        proof {
            lemma_pow2_unfold(k as nat);
            let q = pow2((k - 1) as nat) as int;
            assert((2 * g) * q == g * (2 * q)) by (nonlinear_arith);
        }
        g = g * 2;
        k = k - 1;
    }
    let ghost start = k;
    // Make the most of the fraction.
    while g < 0x4000_0000_0000
        invariant
            0 < g < 0x1_0000_0000_0000,
            n == g * pow2(k as nat),
            k % 2 == 0,
            148 <= start <= 402,
            k <= start,
            pow2((start - k) as nat) <= g,
        decreases 0x1_0000_0000_0000 - g,
    {
        proof {
            vstd::arithmetic::power2::lemma2_to64_rest();
            if start - k > 46 {
                vstd::arithmetic::power2::lemma_pow2_strictly_increases(46, (start - k) as nat);
            }
            lemma_pow2_unfold(k as nat);
            lemma_pow2_unfold((k - 1) as nat);
            lemma_pow2_unfold((start - k + 2) as nat);
            lemma_pow2_unfold((start - k + 1) as nat);
            let q = pow2((k - 2) as nat) as int;
            assert((4 * g) * q == g * (2 * (2 * q))) by (nonlinear_arith);
        }
        g = g * 4;
        k = k - 2;
    }
    let c: u64 = whole_root(g);
    let x: u32 = k / 2;
    proof {
        lemma_pow2_adds(x as nat, x as nat);
        assert(c >= 0x80_0000) by (nonlinear_arith)
            requires
                0x4000_0000_0000 <= g,
                g < (c + 1) * (c + 1),
                c >= 0,
        ;
        lemma_round_root(g as int, c as int, x as int);
    }
    let m: u64 = x as u64 * 0x80_0000 + c;
    assert(c * c < 0x1_0000_0000_0000) by (nonlinear_arith)
        requires
            0 <= c < 0x100_0000,
    ;
    let magnitude: u64 = if g - c * c > c {
        m + 1
    } else {
        m
    };
    proof {
        lemma_root_is(magnitude as int, n as int);
    }
    magnitude as u32
}

/// The root of a square is what was squared, where both are singles.
pub proof fn law_roots_undo_squares(m: int)
    requires
        m >= 0,
    ensures
        root_rounded(magnitude_units(m) * magnitude_units(m)) == m,
{
    let u = magnitude_units(m);
    lemma_units_not_negative(m);
    lemma_units_monotone(m, m + 1);
    lemma_squares_keep_order(2 * u, u + magnitude_units(m + 1));
    assert((2 * u) * (2 * u) == 4 * (u * u)) by (nonlinear_arith);
    if m > 0 {
        lemma_units_monotone(m - 1, m);
        lemma_units_not_negative(m - 1);
        lemma_squares_keep_order(magnitude_units(m - 1) + u, 2 * u);
    }
    lemma_root_is(m, u * u);
}

/// Larger numbers have no smaller roots.
pub proof fn law_roots_keep_order(m1: int, n1: int, m2: int, n2: int)
    requires
        n1 <= n2,
        root_rounds_to(m1, n1),
        root_rounds_to(m2, n2),
    ensures
        m1 <= m2,
{
    if m2 < m1 {
        let above = magnitude_units(m2) + magnitude_units(m2 + 1);
        let below = magnitude_units(m1 - 1) + magnitude_units(m1);
        lemma_units_not_negative(m2);
        lemma_units_not_negative(m2 + 1);
        if m2 + 1 < m1 {
            lemma_units_monotone(m2, m1 - 1);
            lemma_units_monotone(m2 + 1, m1);
        }
        lemma_squares_keep_order(above, below);
    }
}

} // verus!
