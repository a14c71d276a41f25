//! Sums, differences, products and quotients of singles, rounded as IEEE 754 has it: to the
//! nearest single, ties to the even one.

use crate::geometry::ONE_BITS;
use crate::scalar::{
    fraction_span, lemma_small_units, lemma_units_monotone, magnitude_units, Scalar, INFINITY_BITS,
    SIGN_BIT,
};
use vstd::arithmetic::power2::{lemma_pow2_adds, lemma_pow2_pos, lemma_pow2_unfold, pow2};
use vstd::prelude::*;

verus! {

/// The bits that stand for no number.
pub const NAN_BITS: u32 = 0x7fc0_0000;

/// How many times the smallest positive single has to be doubled to give 1.
pub const UNIT_EXPONENT: u32 = 149;

/// Whether `n / d` smallest singles, not less than zero, round to a magnitude: they lie
/// between the middles to its neighbours, on a middle only if the magnitude is even.
pub open spec fn rounds_to(magnitude: int, n: int, d: int) -> bool {
    let below = (magnitude_units(magnitude - 1) + magnitude_units(magnitude)) * d;
    let above = (magnitude_units(magnitude) + magnitude_units(magnitude + 1)) * d;
    &&& magnitude >= 0
    &&& magnitude == 0 || below < 2 * n || (below == 2 * n && magnitude % 2 == 0)
    &&& 2 * n < above || (2 * n == above && magnitude % 2 == 0)
}

/// The magnitude that `n / d` smallest singles round to.
pub open spec fn rounded(n: int, d: int) -> int {
    choose|magnitude: int| rounds_to(magnitude, n, d)
}

/// A magnitude as a single has it: what is too large is infinite.
pub open spec fn capped(magnitude: int) -> u32 {
    if magnitude < INFINITY_BITS {
        magnitude as u32
    } else {
        INFINITY_BITS
    }
}

impl Scalar {
    /// Whether the sign bit is set.
    pub open spec fn signed(self) -> bool {
        self.bits >= SIGN_BIT
    }

    /// Whether the value is infinite, of either sign.
    pub open spec fn is_infinite(self) -> bool {
        self.magnitude() == INFINITY_BITS
    }

    /// The value of this magnitude with this sign.
    pub open spec fn of_magnitude(signed: bool, magnitude: u32) -> Scalar {
        if signed {
            Scalar { bits: (SIGN_BIT + magnitude) as u32 }
        } else {
            Scalar { bits: magnitude }
        }
    }

    /// The value with the other sign.
    pub open spec fn negated(self) -> Scalar {
        Scalar::of_magnitude(!self.signed(), self.magnitude() as u32)
    }

    /// The single nearest to a whole number.
    pub open spec fn of_count(count: int) -> Scalar {
        Scalar::of_magnitude(
            false,
            capped(rounded(count * pow2(UNIT_EXPONENT as nat), 1)),
        )
    }

    /// The whole number next to the value on the side of zero, within the bounds of an
    /// `i32`; zero for what is no number.
    pub open spec fn truncated(self) -> int {
        let whole = if self.is_infinite() {
            i32::MAX + 1
        } else {
            magnitude_units(self.magnitude()) / (pow2(UNIT_EXPONENT as nat) as int)
        };
        if self.is_nan() {
            0
        } else if self.signed() {
            if whole > i32::MAX {
                i32::MIN as int
            } else {
                -whole
            }
        } else if whole > i32::MAX {
            i32::MAX as int
        } else {
            whole
        }
    }

    /// `self + other`.
    pub open spec fn plus(self, other: Scalar) -> Scalar {
        if self.is_nan() || other.is_nan() {
            Scalar { bits: NAN_BITS }
        } else if self.is_infinite() && other.is_infinite() {
            if self == other {
                self
            } else {
                Scalar { bits: NAN_BITS }
            }
        } else if self.is_infinite() {
            self
        } else if other.is_infinite() {
            other
        } else {
            let total = self.units() + other.units();
            if total > 0 {
                Scalar::of_magnitude(false, capped(rounded(total, 1)))
            } else if total < 0 {
                Scalar::of_magnitude(true, capped(rounded(-total, 1)))
            } else {
                Scalar::of_magnitude(self.bits == SIGN_BIT && other.bits == SIGN_BIT, 0)
            }
        }
    }

    /// `self - other`.
    pub open spec fn minus(self, other: Scalar) -> Scalar {
        self.plus(other.negated())
    }

    /// `self * other`.
    pub open spec fn times(self, other: Scalar) -> Scalar {
        let signed = self.signed() != other.signed();
        if self.is_nan() || other.is_nan() {
            Scalar { bits: NAN_BITS }
        } else if self.is_infinite() || other.is_infinite() {
            if self.magnitude() == 0 || other.magnitude() == 0 {
                Scalar { bits: NAN_BITS }
            } else {
                Scalar::of_magnitude(signed, INFINITY_BITS)
            }
        } else {
            let n = magnitude_units(self.magnitude()) * magnitude_units(other.magnitude());
            Scalar::of_magnitude(signed, capped(rounded(n, pow2(UNIT_EXPONENT as nat) as int)))
        }
    }

    /// `self / other`.
    pub open spec fn over(self, other: Scalar) -> Scalar {
        let signed = self.signed() != other.signed();
        if self.is_nan() || other.is_nan() {
            Scalar { bits: NAN_BITS }
        } else if self.is_infinite() {
            if other.is_infinite() {
                Scalar { bits: NAN_BITS }
            } else {
                Scalar::of_magnitude(signed, INFINITY_BITS)
            }
        } else if other.is_infinite() {
            Scalar::of_magnitude(signed, 0)
        } else if other.magnitude() == 0 {
            if self.magnitude() == 0 {
                Scalar { bits: NAN_BITS }
            } else {
                Scalar::of_magnitude(signed, INFINITY_BITS)
            }
        } else {
            let n = magnitude_units(self.magnitude()) * pow2(UNIT_EXPONENT as nat);
            let d = magnitude_units(other.magnitude());
            Scalar::of_magnitude(signed, capped(rounded(n, d)))
        }
    }
}

/// More rounds to no less.
pub proof fn lemma_rounding_monotone(m1: int, n1: int, m2: int, n2: int, d: int)
    requires
        d > 0,
        n1 <= n2,
        rounds_to(m1, n1, d),
        rounds_to(m2, n2, d),
    ensures
        m1 <= m2,
{
    if m2 < m1 {
        let above = magnitude_units(m2) + magnitude_units(m2 + 1);
        let below = magnitude_units(m1 - 1) + magnitude_units(m1);
        if m2 + 1 < m1 {
            lemma_units_monotone(m2, m1 - 1);
            lemma_units_monotone(m2 + 1, m1);
            assert(above * d < below * d) by (nonlinear_arith)
                requires
                    above < below,
                    d > 0,
            ;
        }
    }
}

/// There is at most one magnitude to round to.
pub proof fn lemma_rounded_is(m: int, n: int, d: int)
    requires
        d > 0,
        rounds_to(m, n, d),
    ensures
        rounded(n, d) == m,
{
    let other = rounded(n, d);
    lemma_rounding_monotone(m, n, other, n, d);
    lemma_rounding_monotone(other, n, m, n, d);
}

/// Rounding depends on the quotient alone.
proof fn lemma_same_quotient(m: int, n1: int, d1: int, n2: int, d2: int)
    requires
        d1 > 0,
        d2 > 0,
        n1 * d2 == n2 * d1,
        rounds_to(m, n1, d1),
    ensures
        rounds_to(m, n2, d2),
{
    lemma_same_order(magnitude_units(m - 1) + magnitude_units(m), n1, d1, n2, d2);
    lemma_same_order(magnitude_units(m) + magnitude_units(m + 1), n1, d1, n2, d2);
}

proof fn lemma_same_order(a: int, n1: int, d1: int, n2: int, d2: int)
    requires
        d1 > 0,
        d2 > 0,
        n1 * d2 == n2 * d1,
    ensures
        a * d1 < 2 * n1 <==> a * d2 < 2 * n2,
        a * d1 == 2 * n1 <==> a * d2 == 2 * n2,
        2 * n1 < a * d1 <==> 2 * n2 < a * d2,
{
    let l = a * d1 - 2 * n1;
    let r = a * d2 - 2 * n2;
    assert(l * d2 == r * d1) by (nonlinear_arith)
        requires
            l == a * d1 - 2 * n1,
            r == a * d2 - 2 * n2,
            n1 * d2 == n2 * d1,
    ;
    assert((l < 0 <==> r < 0) && (l == 0 <==> r == 0)) by (nonlinear_arith)
        requires
            l * d2 == r * d1,
            d1 > 0,
            d2 > 0,
    ;
}

/// The magnitude of a fraction with its exponent, and what it counts.
pub proof fn lemma_packed(c: int, x: int)
    requires
        0 <= c <= 2 * fraction_span(),
        0 <= x,
        x == 0 || c >= fraction_span(),
    ensures
        magnitude_units(x * fraction_span() + c) == c * pow2(x as nat),
{
    let span = fraction_span();
    let m = x * span + c;
    lemma_pow2_pos(x as nat);
    if c == 2 * span {
        assert(m / span == x + 2 && m % span == 0) by (nonlinear_arith)
            requires
                m == x * span + 2 * span,
                span == 0x80_0000,
                x >= 0,
        ;
        lemma_pow2_unfold((x + 1) as nat);
        let p = pow2(x as nat);
        let q = pow2((x + 1) as nat);
        assert(q == 2 * p);
        assert(span * q == (2 * span) * p) by (nonlinear_arith)
            requires
                q == 2 * p,
        ;
    } else if c >= span {
        assert(m / span == x + 1 && m % span == c - span) by (nonlinear_arith)
            requires
                m == x * span + c,
                span == 0x80_0000,
                span <= c < 2 * span,
                x >= 0,
        ;
    } else {
        lemma_small_units(c);
        assert(pow2(0) == 1) by {
            vstd::arithmetic::power2::lemma2_to64();
        }
        assert(x * span == 0) by (nonlinear_arith)
            requires
                x == 0,
        ;
        assert(c * pow2(x as nat) == c) by (nonlinear_arith)
            requires
                pow2(x as nat) == 1,
        ;
    }
}

/// Rounding a quotient of whole numbers under an exponent, by its remainder.
proof fn lemma_round_quotient(n: int, d: int, x: int, c: int, r: int)
    requires
        0 < n,
        0 < d,
        0 <= x,
        n == c * d + r,
        0 <= r < d,
        0 <= c < 2 * fraction_span(),
        x == 0 || c >= fraction_span(),
    ensures
        ({
            let m = x * fraction_span() + c;
            rounds_to(
                if 2 * r > d || (2 * r == d && m % 2 == 1) {
                    m + 1
                } else {
                    m
                },
                n * pow2(x as nat),
                d,
            )
        }),
{
    let p = pow2(x as nat) as int;
    let m = x * fraction_span() + c;
    lemma_pow2_pos(x as nat);
    lemma_packed(c, x);
    lemma_packed(c + 1, x);
    assert(0 <= x * fraction_span()) by (nonlinear_arith)
        requires
            x >= 0,
            fraction_span() == 0x80_0000,
    ;
    let u0 = magnitude_units(m);
    let u1 = magnitude_units(m + 1);
    let u2 = magnitude_units(m + 2);
    lemma_units_monotone(m, m + 1);
    lemma_units_monotone(m + 1, m + 2);
    let middle = (u0 + u1) * d;
    let twice = 2 * (n * p);
    assert(twice - middle == (2 * r - d) * p) by (nonlinear_arith)
        requires
            middle == (u0 + u1) * d,
            twice == 2 * (n * p),
            u0 == c * p,
            u1 == (c + 1) * p,
            n == c * d + r,
    ;
    assert((2 * r > d ==> twice > middle) && (2 * r == d ==> twice == middle) && (2 * r < d
        ==> twice < middle)) by (nonlinear_arith)
        requires
            twice - middle == (2 * r - d) * p,
            p > 0,
    ;
    assert(2 * u0 * d <= twice && twice < 2 * u1 * d) by (nonlinear_arith)
        requires
            twice == 2 * (n * p),
            u0 == c * p,
            u1 == (c + 1) * p,
            n == c * d + r,
            0 <= r < d,
            p > 0,
    ;
    assert((u1 + u2) * d > 2 * u1 * d) by (nonlinear_arith)
        requires
            u2 > u1,
            d > 0,
    ;
    if m > 0 {
        let before = magnitude_units(m - 1);
        lemma_units_monotone(m - 1, m);
        assert((before + u0) * d < 2 * u0 * d) by (nonlinear_arith)
            requires
                before < u0,
                d > 0,
        ;
    }
}

proof fn lemma_double_divisor(n: int, p: int, q: int, den: int, whole: int, d: int)
    requires
        q == 2 * p,
        (n * p) * den == whole * d,
    ensures
        (n * q) * den == whole * (2 * d),
{
    assert((n * q) * den == whole * (2 * d)) by (nonlinear_arith)
        requires
            q == 2 * p,
            (n * p) * den == whole * d,
    ;
}

/// The magnitude that `num / den`, doubled `exponent` times, rounds to.
fn round_scaled(num: u128, den: u64, exponent: u32) -> (magnitude: u64)
    requires
        0 < num < 0x10_0000_0000_0000_0000_0000_0000,
        0 < den <= 0x10_0000_0000_0000,
        exponent <= 1000,
    ensures
        rounds_to(magnitude as int, num * pow2(exponent as nat), den as int),
{
    let mut n: u128 = num;
    let mut d: u128 = den as u128;
    let mut x: u32 = exponent;
    let ghost whole = num * pow2(exponent as nat);
    proof {
        vstd::arithmetic::power2::lemma2_to64();
    }
    // Make the quotient small enough for a fraction.
    while n >= d * 0x100_0000
        invariant
            n == num,
            0 < num < 0x10_0000_0000_0000_0000_0000_0000,
            0 < den,
            0 < d <= 0x20_0000_0000_0000_0000_0000,
            exponent <= x <= exponent + 0x100,
            pow2((x - exponent) as nat) <= d,
            exponent <= 1000,
            (n * pow2(x as nat)) * den == whole * d,
        decreases 0x20_0000_0000_0000_0000_0000 - d,
    {
        proof {
            lemma_pow2_unfold((x + 1) as nat);
            lemma_pow2_unfold((x + 1 - exponent) as nat);
            if x - exponent > 0x80 {
                vstd::arithmetic::power2::lemma2_to64();
                lemma_pow2_adds(64, 64);
                vstd::arithmetic::power2::lemma_pow2_strictly_increases(
                    0x80,
                    (x - exponent) as nat,
                );
            }
            lemma_double_divisor(
                n as int,
                pow2(x as nat) as int,
                pow2((x + 1) as nat) as int,
                den as int,
                whole as int,
                d as int,
            );
        }
        d = d * 2;
        x = x + 1;
    }
    // Make the most of the fraction.
    while x > 0 && 2 * n < d * 0x100_0000
        invariant
            0 < n < d * 0x100_0000,
            0 < d <= 0x20_0000_0000_0000_0000_0000,
            x <= 2000,
            (n * pow2(x as nat)) * den == whole * d,
        decreases x,
    {
        proof {
            lemma_pow2_unfold(x as nat);
            let wide = pow2(x as nat) as int;
            let narrow = pow2((x - 1) as nat) as int;
            assert((2 * n) * narrow == n * wide) by (nonlinear_arith)
                requires
                    wide == 2 * narrow,
            ;
        }
        n = n * 2;
        x = x - 1;
    }
    let c: u128 = n / d;
    let r: u128 = n % d;
    proof {
        assert(n == c * d + r && 0 <= r < d) by (nonlinear_arith)
            requires
                c == n / d,
                r == n % d,
                d > 0,
        ;
        assert(c < 0x100_0000) by (nonlinear_arith)
            requires
                n == c * d + r,
                0 <= r,
                n < d * 0x100_0000,
                d > 0,
        ;
        if x > 0 {
            assert(c >= 0x80_0000) by (nonlinear_arith)
                requires
                    n == c * d + r,
                    r < d,
                    2 * n >= d * 0x100_0000,
                    d > 0,
            ;
        }
        assert(x * 0x80_0000 + c < u64::MAX);
        lemma_round_quotient(n as int, d as int, x as int, c as int, r as int);
        let m = x * 0x80_0000 + c;
        let up = 2 * r > d || (2 * r == d && m % 2 == 1);
        lemma_same_quotient(
            if up {
                m + 1
            } else {
                m
            },
            n * pow2(x as nat),
            d as int,
            whole as int,
            den as int,
        );
    }
    let m: u64 = x as u64 * 0x80_0000 + c as u64;
    if 2 * r > d || (2 * r == d && m % 2 == 1) {
        m + 1
    } else {
        m
    }
}

/// A magnitude below infinity as a fraction and how often it is doubled.
pub(crate) fn split(magnitude: u32) -> (parts: (u64, u32))
    requires
        magnitude < INFINITY_BITS,
    ensures
        parts.0 < 0x100_0000,
        parts.1 <= 253,
        parts.1 > 0 ==> parts.0 >= 0x80_0000,
        magnitude == parts.1 * 0x80_0000 + parts.0,
        magnitude_units(magnitude as int) == parts.0 * pow2(parts.1 as nat),
{
    let exponent: u32 = magnitude / 0x80_0000;
    let fraction: u32 = magnitude % 0x80_0000;
    proof {
        vstd::arithmetic::power2::lemma2_to64();
    }
    if exponent == 0 {
        assert(fraction * pow2(0) == fraction) by (nonlinear_arith)
            requires
                pow2(0) == 1,
        ;
        (fraction as u64, 0)
    } else {
        ((fraction + 0x80_0000) as u64, exponent - 1)
    }
}

/// A fraction doubled a few times.
fn doubled(fraction: u64, times: u32) -> (value: u64)
    requires
        fraction < 0x100_0000,
        times <= 26,
    ensures
        value == fraction * pow2(times as nat),
        value < 0x4_0000_0000_0000,
{
    let mut value: u64 = fraction;
    let mut i: u32 = 0;
    proof {
        vstd::arithmetic::power2::lemma2_to64();
        assert(fraction * pow2(0) == fraction) by (nonlinear_arith)
            requires
                pow2(0) == 1,
        ;
    }
    while i < times
        invariant
            i <= times <= 26,
            fraction < 0x100_0000,
            value == fraction * pow2(i as nat),
            pow2(26) == 0x400_0000,
        decreases times - i,
    {
        proof {
            lemma_pow2_unfold((i + 1) as nat);
            lemma_doubled_bound(fraction as int, i);
            let narrow = pow2(i as nat) as int;
            let wide = pow2((i + 1) as nat) as int;
            assert(2 * (fraction * narrow) == fraction * wide) by (nonlinear_arith)
                requires
                    wide == 2 * narrow,
            ;
        }
        value = value * 2;
        i += 1;
    }
    proof {
        lemma_doubled_bound(fraction as int, times);
    }
    value
}

proof fn lemma_doubled_bound(fraction: int, times: u32)
    requires
        0 <= fraction < 0x100_0000,
        times <= 26,
    ensures
        fraction * pow2(times as nat) < 0x4_0000_0000_0000,
{
    vstd::arithmetic::power2::lemma2_to64();
    if times < 26 {
        vstd::arithmetic::power2::lemma_pow2_strictly_increases(times as nat, 26);
    }
    let p = pow2(times as nat) as int;
    lemma_pow2_pos(times as nat);
    assert(fraction * p < 0x100_0000 * 0x400_0000) by (nonlinear_arith)
        requires
            0 <= fraction < 0x100_0000,
            0 < p <= 0x400_0000,
    ;
}

/// What is far smaller than a magnitude does not change it.
proof fn lemma_far_smaller(a: int, s: int, b: int, t: int, subtract: bool)
    requires
        fraction_span() <= a < 2 * fraction_span(),
        0 <= b < 2 * fraction_span(),
        0 <= t,
        t + 27 <= s,
    ensures
        rounds_to(
            s * fraction_span() + a,
            if subtract {
                a * pow2(s as nat) - b * pow2(t as nat)
            } else {
                a * pow2(s as nat) + b * pow2(t as nat)
            },
            1,
        ),
{
    let span = fraction_span();
    let m = s * span + a;
    let p = pow2(s as nat) as int;
    let half = pow2((s - 1) as nat) as int;
    let q = pow2(t as nat) as int;
    lemma_pow2_pos(t as nat);
    lemma_pow2_unfold(s as nat);
    lemma_pow2_adds(t as nat, 27);
    vstd::arithmetic::power2::lemma2_to64();
    if t + 27 < s {
        vstd::arithmetic::power2::lemma_pow2_strictly_increases((t + 27) as nat, s as nat);
    }
    assert(8 * 0x100_0000 * q <= p) by (nonlinear_arith)
        requires
            q * pow2(27) <= p,
            pow2(27) == 0x800_0000,
    ;
    let small = b * q;
    assert(0 <= small && 8 * small < p) by (nonlinear_arith)
        requires
            small == b * q,
            0 <= b < 0x100_0000,
            q > 0,
            8 * 0x100_0000 * q <= p,
    ;
    lemma_packed(a, s);
    lemma_packed(a + 1, s);
    let u = a * p;
    assert((a + 1) * p == u + p) by (nonlinear_arith)
        requires
            u == a * p,
    ;
    assert(m > 0) by (nonlinear_arith)
        requires
            m == s * span + a,
            s >= 0,
            a > 0,
            span == 0x80_0000,
    ;
    let before = magnitude_units(m - 1);
    assert(2 * (u - before) >= p) by {
        if a > span {
            lemma_packed(a - 1, s);
            assert((a - 1) * p == u - p) by (nonlinear_arith)
                requires
                    u == a * p,
            ;
        } else {
            lemma_packed(2 * span - 1, s - 1);
            assert((s - 1) * span + (2 * span - 1) == m - 1) by (nonlinear_arith)
                requires
                    m == s * span + a,
                    a == span,
            ;
            assert((2 * span - 1) * half == u - half) by (nonlinear_arith)
                requires
                    u == a * p,
                    p == 2 * half,
                    a == span,
            ;
        }
    }
}

fn cap(magnitude: u64) -> (bits: u32)
    ensures
        bits == capped(magnitude as int),
{
    if magnitude < INFINITY_BITS as u64 {
        magnitude as u32
    } else {
        INFINITY_BITS
    }
}

/// The magnitude of the sum, or of the difference, of two magnitudes.
fn combine(large: u32, small: u32, subtract: bool) -> (magnitude: u32)
    requires
        small <= large < INFINITY_BITS,
        0 < large,
        subtract ==> small < large,
    ensures
        magnitude <= INFINITY_BITS,
        ({
            let l = magnitude_units(large as int);
            let s = magnitude_units(small as int);
            magnitude == capped(
                rounded(
                    if subtract {
                        l - s
                    } else {
                        l + s
                    },
                    1,
                ),
            )
        }),
{
    let (a, s) = split(large);
    let (b, t) = split(small);
    let ghost exact = if subtract {
        magnitude_units(large as int) - magnitude_units(small as int)
    } else {
        magnitude_units(large as int) + magnitude_units(small as int)
    };
    assert(t <= s) by (nonlinear_arith)
        requires
            small <= large,
            large == s * 0x80_0000 + a,
            small == t * 0x80_0000 + b,
            a < 0x100_0000,
            t > 0 ==> b >= 0x80_0000,
            s > 0 ==> a >= 0x80_0000,
    ;
    if s - t >= 27 {
        proof {
            lemma_far_smaller(a as int, s as int, b as int, t as int, subtract);
            lemma_rounded_is(large as int, exact, 1);
        }
        return large;
    }
    let wide = doubled(a, s - t);
    proof {
        if small < large {
            lemma_units_monotone(small as int, large as int);
        }
        if small > 0 {
            lemma_units_monotone(0, small as int);
        }
        lemma_small_units(0);
        lemma_pow2_adds((s - t) as nat, t as nat);
        lemma_pow2_pos(t as nat);
        let p = pow2(t as nat) as int;
        assert(wide * p == a * pow2(s as nat)) by (nonlinear_arith)
            requires
                wide == a * pow2((s - t) as nat),
                pow2((s - t) as nat) * p == pow2(s as nat),
        ;
        assert((wide + b) * p == wide * p + b * p && (wide - b) * p == wide * p - b * p)
            by (nonlinear_arith);
        assert(exact == if subtract {
            (wide - b) * p
        } else {
            (wide + b) * p
        });
        assert(exact > 0);
        assert(subtract ==> wide - b > 0) by (nonlinear_arith)
            requires
                subtract ==> (wide - b) * p > 0,
                p > 0,
        ;
        assert(!subtract ==> wide + b > 0) by (nonlinear_arith)
            requires
                !subtract ==> (wide + b) * p > 0,
                p > 0,
        ;
    }
    let num: u64 = if subtract {
        wide - b
    } else {
        wide + b
    };
    let rounded_to: u64 = round_scaled(num as u128, 1, t);
    proof {
        lemma_rounded_is(rounded_to as int, exact, 1);
    }
    cap(rounded_to)
}

impl Scalar {
    pub(crate) fn sign(self) -> (signed: bool)
        ensures
            signed == self.signed(),
    {
        self.bits >= SIGN_BIT
    }

    pub(crate) fn size(self) -> (magnitude: u32)
        ensures
            magnitude == self.magnitude(),
    {
        if self.bits < SIGN_BIT {
            self.bits
        } else {
            self.bits - SIGN_BIT
        }
    }

    fn from_size(signed: bool, magnitude: u32) -> (value: Scalar)
        requires
            magnitude < SIGN_BIT,
        ensures
            value == Scalar::of_magnitude(signed, magnitude),
    {
        if signed {
            Scalar { bits: SIGN_BIT + magnitude }
        } else {
            Scalar { bits: magnitude }
        }
    }

    /// The value with the other sign.
    pub fn negate(self) -> (value: Scalar)
        ensures
            value == self.negated(),
    {
        Scalar::from_size(!self.sign(), self.size())
    }

    /// The sum of two values.
    pub fn sum(self, other: Scalar) -> (value: Scalar)
        ensures
            value == self.plus(other),
    {
        let (a, b) = (self.size(), other.size());
        if a > INFINITY_BITS || b > INFINITY_BITS {
            return Scalar { bits: NAN_BITS };
        }
        if a == INFINITY_BITS {
            return if b == INFINITY_BITS && self.bits != other.bits {
                Scalar { bits: NAN_BITS }
            } else {
                self
            };
        }
        if b == INFINITY_BITS {
            return other;
        }
        let same = self.sign() == other.sign();
        proof {
            lemma_small_units(0);
            if a > 0 {
                lemma_units_monotone(0, a as int);
            }
            if b > 0 {
                lemma_units_monotone(0, b as int);
            }
            if a < b {
                lemma_units_monotone(a as int, b as int);
            }
            if b < a {
                lemma_units_monotone(b as int, a as int);
            }
        }
        if a == b && (!same || a == 0) {
            return Scalar::from_size(self.bits == SIGN_BIT && other.bits == SIGN_BIT, 0);
        }
        if a >= b {
            Scalar::from_size(self.sign(), combine(a, b, !same))
        } else {
            Scalar::from_size(other.sign(), combine(b, a, !same))
        }
    }

    /// The difference of two values.
    pub fn difference(self, other: Scalar) -> (value: Scalar)
        ensures
            value == self.minus(other),
    {
        self.sum(other.negate())
    }

    /// The single nearest to a whole number.
    pub fn from_count(count: u128) -> (value: Scalar)
        requires
            count < 0x10_0000_0000_0000_0000_0000_0000,
        ensures
            value == Scalar::of_count(count as int),
    {
        let ghost n = count * pow2(UNIT_EXPONENT as nat);
        if count == 0 {
            proof {
                lemma_small_units(0);
                lemma_small_units(1);
                assert(n == 0) by (nonlinear_arith)
                    requires
                        n == count * pow2(UNIT_EXPONENT as nat),
                        count == 0,
                ;
                lemma_rounded_is(0, n, 1);
            }
            return Scalar { bits: 0 };
        }
        let magnitude = round_scaled(count, 1, UNIT_EXPONENT);
        proof {
            lemma_rounded_is(magnitude as int, n, 1);
        }
        Scalar::from_size(false, cap(magnitude))
    }

    /// The whole number next to the value on the side of zero, within the bounds of an
    /// `i32`.
    pub fn to_i32(self) -> (value: i32)
        ensures
            value == self.truncated(),
    {
        let size = self.size();
        if size > INFINITY_BITS {
            return 0;
        }
        let whole: u32 = if size == INFINITY_BITS {
            0x8000_0000
        } else {
            whole_part(size)
        };
        if self.sign() {
            if whole > 0x7fff_ffff {
                i32::MIN
            } else {
                -(whole as i32)
            }
        } else if whole > 0x7fff_ffff {
            i32::MAX
        } else {
            whole as i32
        }
    }

    /// The product of two values.
    pub fn product(self, other: Scalar) -> (value: Scalar)
        ensures
            value == self.times(other),
    {
        let (a, b) = (self.size(), other.size());
        let signed = self.sign() != other.sign();
        if a > INFINITY_BITS || b > INFINITY_BITS {
            Scalar { bits: NAN_BITS }
        } else if a == INFINITY_BITS || b == INFINITY_BITS {
            if a == 0 || b == 0 {
                Scalar { bits: NAN_BITS }
            } else {
                Scalar::from_size(signed, INFINITY_BITS)
            }
        } else {
            Scalar::from_size(signed, multiply(a, b))
        }
    }

    /// The quotient of two values.
    pub fn quotient(self, other: Scalar) -> (value: Scalar)
        ensures
            value == self.over(other),
    {
        let (a, b) = (self.size(), other.size());
        let signed = self.sign() != other.sign();
        if a > INFINITY_BITS || b > INFINITY_BITS {
            Scalar { bits: NAN_BITS }
        } else if a == INFINITY_BITS {
            if b == INFINITY_BITS {
                Scalar { bits: NAN_BITS }
            } else {
                Scalar::from_size(signed, INFINITY_BITS)
            }
        } else if b == INFINITY_BITS {
            Scalar::from_size(signed, 0)
        } else if b == 0 {
            if a == 0 {
                Scalar { bits: NAN_BITS }
            } else {
                Scalar::from_size(signed, INFINITY_BITS)
            }
        } else {
            Scalar::from_size(signed, divide(a, b))
        }
    }
}

/// Two to a power.
fn power(times: u32) -> (value: u64)
    requires
        times <= 52,
    ensures
        value == pow2(times as nat),
        0 < value <= 0x10_0000_0000_0000,
{
    proof {
        vstd::arithmetic::power2::lemma2_to64();
    }
    if times <= 26 {
        let value = doubled(1, times);
        proof {
            lemma_pow2_pos(times as nat);
            if times < 52 {
                vstd::arithmetic::power2::lemma_pow2_strictly_increases(times as nat, 52);
            }
        }
        value
    } else {
        let low = doubled(1, times - 26);
        proof {
            lemma_pow2_adds((times - 26) as nat, 26);
            lemma_pow2_pos(times as nat);
            if times < 52 {
                vstd::arithmetic::power2::lemma_pow2_strictly_increases(times as nat, 52);
            }
        }
        low * 0x400_0000
    }
}

/// The whole part of a magnitude, as far as it is below two to the 31st.
fn whole_part(size: u32) -> (whole: u32)
    requires
        size < INFINITY_BITS,
    ensures
        ({
            let exact = magnitude_units(size as int) / (pow2(UNIT_EXPONENT as nat) as int);
            whole == if exact > i32::MAX {
                0x8000_0000
            } else {
                exact
            }
        }),
{
    let (fraction, exponent) = split(size);
    let ghost d = pow2(UNIT_EXPONENT as nat) as int;
    let ghost p = pow2(exponent as nat) as int;
    proof {
        lemma_pow2_pos(UNIT_EXPONENT as nat);
        lemma_pow2_pos(exponent as nat);
        vstd::arithmetic::power2::lemma2_to64();
    }
    if exponent >= UNIT_EXPONENT {
        let up: u32 = exponent - UNIT_EXPONENT;
        let ghost e = pow2(up as nat) as int;
        proof {
            lemma_pow2_adds(up as nat, UNIT_EXPONENT as nat);
            assert((fraction * p) / d == fraction * e) by (nonlinear_arith)
                requires
                    e * d == p,
                    d > 0,
            ;
        }
        if up >= 8 {
            proof {
                if up > 8 {
                    vstd::arithmetic::power2::lemma_pow2_strictly_increases(8, up as nat);
                }
                assert(fraction * e >= 0x8000_0000) by (nonlinear_arith)
                    requires
                        fraction >= 0x80_0000,
                        e >= 0x100,
                ;
            }
            return 0x8000_0000;
        }
        let value = doubled(fraction, up);
        if value > 0x7fff_ffff {
            0x8000_0000
        } else {
            value as u32
        }
    } else {
        let down: u32 = UNIT_EXPONENT - exponent;
        let ghost e = pow2(down as nat) as int;
        proof {
            lemma_pow2_pos(down as nat);
            lemma_pow2_adds(down as nat, exponent as nat);
            assert((fraction * p) / d == fraction as int / e) by {
                vstd::arithmetic::div_mod::lemma_div_multiples_vanish_quotient(
                    p,
                    fraction as int,
                    e,
                );
                assert(p * fraction == fraction * p) by (nonlinear_arith);
                assert(p * e == d) by (nonlinear_arith)
                    requires
                        e * p == d,
                ;
            }
        }
        if down > 24 {
            proof {
                vstd::arithmetic::power2::lemma_pow2_strictly_increases(24, down as nat);
                vstd::arithmetic::div_mod::lemma_basic_div(fraction as int, e);
            }
            return 0;
        }
        let divisor = doubled(1, down);
        assert(divisor == e) by (nonlinear_arith)
            requires
                divisor == 1 * pow2(down as nat),
                e == pow2(down as nat),
        ;
        proof {
            vstd::arithmetic::div_mod::lemma_div_is_ordered_by_denominator(fraction as int, 1, e);
        }
        (fraction / divisor) as u32
    }
}

/// The magnitude of the product of two magnitudes.
fn multiply(first: u32, second: u32) -> (magnitude: u32)
    requires
        first < INFINITY_BITS,
        second < INFINITY_BITS,
    ensures
        magnitude <= INFINITY_BITS,
        magnitude == capped(
            rounded(
                magnitude_units(first as int) * magnitude_units(second as int),
                pow2(UNIT_EXPONENT as nat) as int,
            ),
        ),
{
    let ghost n = magnitude_units(first as int) * magnitude_units(second as int);
    let ghost d = pow2(UNIT_EXPONENT as nat) as int;
    let (a, s) = split(first);
    let (b, t) = split(second);
    assert(0 <= a * b < 0x1_0000_0000_0000) by (nonlinear_arith)
        requires
            0 <= a < 0x100_0000,
            0 <= b < 0x100_0000,
    ;
    let num: u64 = a * b;
    let up: u32 = s + t;
    let ghost p = pow2(up as nat) as int;
    proof {
        lemma_pow2_pos(UNIT_EXPONENT as nat);
        lemma_pow2_pos(up as nat);
        lemma_pow2_adds(s as nat, t as nat);
        assert(n == num * p) by (nonlinear_arith)
            requires
                n == (a * pow2(s as nat)) * (b * pow2(t as nat)),
                num == a * b,
                pow2(s as nat) * pow2(t as nat) == p,
        ;
        lemma_small_units(0);
        lemma_small_units(1);
    }
    if num == 0 {
        proof {
            assert(n == 0) by (nonlinear_arith)
                requires
                    n == num * p,
                    num == 0,
            ;
            assert((magnitude_units(0) + magnitude_units(1)) * d == d);
            lemma_rounded_is(0, n, d);
        }
        return 0;
    }
    if up >= UNIT_EXPONENT {
        let magnitude = round_scaled(num as u128, 1, up - UNIT_EXPONENT);
        proof {
            let e = pow2((up - UNIT_EXPONENT) as nat) as int;
            lemma_pow2_adds((up - UNIT_EXPONENT) as nat, UNIT_EXPONENT as nat);
            assert((num * e) * d == n * 1) by (nonlinear_arith)
                requires
                    e * d == p,
                    n == num * p,
            ;
            lemma_same_quotient(magnitude as int, num * e, 1, n, d);
            lemma_rounded_is(magnitude as int, n, d);
        }
        return cap(magnitude);
    }
    let down: u32 = UNIT_EXPONENT - up;
    let ghost e = pow2(down as nat) as int;
    proof {
        lemma_pow2_adds(down as nat, up as nat);
        vstd::arithmetic::power2::lemma2_to64();
    }
    if down <= 52 {
        let magnitude = round_scaled(num as u128, power(down), 0);
        proof {
            assert(num * pow2(0) == num) by (nonlinear_arith)
                requires
                    pow2(0) == 1,
            ;
            assert(num * d == n * e) by (nonlinear_arith)
                requires
                    e * p == d,
                    n == num * p,
            ;
            lemma_same_quotient(magnitude as int, num as int, e, n, d);
            lemma_rounded_is(magnitude as int, n, d);
        }
        return cap(magnitude);
    }
    proof {
        vstd::arithmetic::power2::lemma2_to64_rest();
        vstd::arithmetic::power2::lemma_pow2_strictly_increases(52, down as nat);
        assert(2 * n < d) by (nonlinear_arith)
            requires
                e * p == d,
                n == num * p,
                2 * num < e,
                p > 0,
        ;
        assert((magnitude_units(0) + magnitude_units(1)) * d == d);
        lemma_rounded_is(0, n, d);
    }
    0
}

/// The magnitude of the quotient of two magnitudes.
fn divide(dividend: u32, divisor: u32) -> (magnitude: u32)
    requires
        dividend < INFINITY_BITS,
        0 < divisor < INFINITY_BITS,
    ensures
        magnitude <= INFINITY_BITS,
        magnitude == capped(
            rounded(
                magnitude_units(dividend as int) * pow2(UNIT_EXPONENT as nat),
                magnitude_units(divisor as int),
            ),
        ),
{
    let ghost n = magnitude_units(dividend as int) * pow2(UNIT_EXPONENT as nat);
    let ghost d = magnitude_units(divisor as int);
    proof {
        lemma_small_units(0);
        lemma_small_units(1);
        lemma_units_monotone(0, divisor as int);
    }
    let (a, s) = split(dividend);
    let (b, t) = split(divisor);
    assert(b > 0) by (nonlinear_arith)
        requires
            divisor > 0,
            divisor == t * 0x80_0000 + b,
            t > 0 ==> b >= 0x80_0000,
    ;
    if a == 0 {
        proof {
            assert(n == 0) by (nonlinear_arith)
                requires
                    n == magnitude_units(dividend as int) * pow2(UNIT_EXPONENT as nat),
                    magnitude_units(dividend as int) == a * pow2(s as nat),
                    a == 0,
            ;
            assert((magnitude_units(0) + magnitude_units(1)) * d == d);
            lemma_rounded_is(0, n, d);
        }
        return 0;
    }
    let up: u32 = s + UNIT_EXPONENT;
    let ghost p = pow2(up as nat) as int;
    let ghost q = pow2(t as nat) as int;
    proof {
        lemma_pow2_adds(s as nat, UNIT_EXPONENT as nat);
        lemma_pow2_pos(t as nat);
        assert(n == a * p) by (nonlinear_arith)
            requires
                n == (a * pow2(s as nat)) * pow2(UNIT_EXPONENT as nat),
                pow2(s as nat) * pow2(UNIT_EXPONENT as nat) == p,
        ;
    }
    if up >= t {
        let magnitude = round_scaled(a as u128, b, up - t);
        proof {
            let e = pow2((up - t) as nat) as int;
            lemma_pow2_adds((up - t) as nat, t as nat);
            assert((a * e) * (b * q) == (a * p) * b) by (nonlinear_arith)
                requires
                    e * q == p,
            ;
            lemma_same_quotient(magnitude as int, a * e, b as int, n, d);
            lemma_rounded_is(magnitude as int, n, d);
        }
        return cap(magnitude);
    }
    let ghost e = pow2((t - up) as nat) as int;
    proof {
        lemma_pow2_adds((t - up) as nat, up as nat);
        lemma_pow2_pos(up as nat);
        vstd::arithmetic::power2::lemma2_to64();
    }
    if t - up == 1 {
        let magnitude = round_scaled(a as u128, 2 * b, 0);
        proof {
            assert(a * pow2(0) == a) by (nonlinear_arith)
                requires
                    pow2(0) == 1,
            ;
            assert(a * (b * q) == (a * p) * (2 * b)) by (nonlinear_arith)
                requires
                    e * p == q,
                    e == 2,
            ;
            lemma_same_quotient(magnitude as int, a as int, 2 * b as int, n, d);
            lemma_rounded_is(magnitude as int, n, d);
        }
        return cap(magnitude);
    }
    proof {
        if t - up > 2 {
            vstd::arithmetic::power2::lemma_pow2_strictly_increases(2, (t - up) as nat);
        }
        assert(2 * (a * p) < b * q) by (nonlinear_arith)
            requires
                e * p == q,
                e >= 4,
                a < 0x100_0000,
                b >= 0x80_0000,
                p > 0,
        ;
        assert((magnitude_units(0) + magnitude_units(1)) * d == d);
        lemma_rounded_is(0, n, d);
    }
    0
}

proof fn lemma_units_grow(m: int)
    requires
        0 <= m,
    ensures
        magnitude_units(m) >= m,
    decreases m,
{
    if m > 0 {
        lemma_units_grow(m - 1);
        lemma_units_monotone(m - 1, m);
    } else {
        lemma_small_units(0);
    }
}

proof fn lemma_rounds_from(n: int, d: int, m: int)
    requires
        0 <= n,
        0 < d,
        0 <= m,
        2 * n < (magnitude_units(m) + magnitude_units(m + 1)) * d,
    ensures
        exists|magnitude: int| rounds_to(magnitude, n, d),
    decreases m,
{
    let below = (magnitude_units(m - 1) + magnitude_units(m)) * d;
    if m == 0 || below < 2 * n || (below == 2 * n && m % 2 == 0) {
        assert(rounds_to(m, n, d));
    } else if below > 2 * n {
        lemma_rounds_from(n, d, m - 1);
    } else {
        if m > 1 {
            lemma_units_monotone(m - 2, m - 1);
            lemma_units_monotone(m - 1, m);
            let lower = magnitude_units(m - 2) + magnitude_units(m - 1);
            let upper = magnitude_units(m - 1) + magnitude_units(m);
            assert(lower * d < upper * d) by (nonlinear_arith)
                requires
                    lower < upper,
                    d > 0,
            ;
        }
        assert(rounds_to(m - 1, n, d));
    }
}

/// There is a magnitude to round to.
pub proof fn lemma_rounded(n: int, d: int)
    requires
        0 <= n,
        0 < d,
    ensures
        rounds_to(rounded(n, d), n, d),
{
    lemma_units_grow(n);
    lemma_units_grow(n + 1);
    let sum = magnitude_units(n) + magnitude_units(n + 1);
    assert(sum * d >= sum) by (nonlinear_arith)
        requires
            sum >= 0,
            d >= 1,
    ;
    lemma_rounds_from(n, d, n);
}

/// What is a single already rounds to itself.
pub proof fn law_exact_results_are_kept(m: int, d: int)
    requires
        0 <= m,
        0 < d,
    ensures
        rounded(magnitude_units(m) * d, d) == m,
{
    let u = magnitude_units(m);
    let above = u + magnitude_units(m + 1);
    lemma_units_monotone(m, m + 1);
    assert(2 * (u * d) < above * d) by (nonlinear_arith)
        requires
            2 * u < above,
            d > 0,
    ;
    if m > 0 {
        let below = magnitude_units(m - 1) + u;
        lemma_units_monotone(m - 1, m);
        assert(below * d < 2 * (u * d)) by (nonlinear_arith)
            requires
                below < 2 * u,
                d > 0,
        ;
    }
    lemma_rounded_is(m, u * d, d);
}

/// More rounds to no less.
pub proof fn law_rounding_keeps_order(n1: int, n2: int, d: int)
    requires
        0 <= n1 <= n2,
        0 < d,
    ensures
        0 <= rounded(n1, d) <= rounded(n2, d),
{
    lemma_rounded(n1, d);
    lemma_rounded(n2, d);
    lemma_rounding_monotone(rounded(n1, d), n1, rounded(n2, d), n2, d);
}

/// Sums do not depend on the order, and a sign taken twice is none.
pub proof fn law_sums_commute(a: Scalar, b: Scalar)
    ensures
        a.plus(b) == b.plus(a),
        a.negated().negated() == a,
        a.minus(b.negated()) == a.plus(b),
{
}

/// One counts as many units as its exponent says.
pub proof fn lemma_one()
    ensures
        magnitude_units(ONE_BITS as int) == pow2(UNIT_EXPONENT as nat),
{
    lemma_pow2_adds(23, 126);
    vstd::arithmetic::power2::lemma2_to64();
    assert(ONE_BITS as int / fraction_span() == 127 && ONE_BITS as int % fraction_span() == 0);
}

/// A number of units as a single: the nearest one, with the sign of the number.
spec fn nearest(total: int) -> Scalar {
    if total >= 0 {
        Scalar::of_magnitude(false, capped(rounded(total, 1)))
    } else {
        Scalar::of_magnitude(true, capped(rounded(-total, 1)))
    }
}

proof fn lemma_nearest_in_order(low: int, high: int)
    requires
        low <= high,
    ensures
        nearest(low).rank() <= nearest(high).rank(),
        !nearest(low).is_nan(),
        !nearest(high).is_nan(),
{
    let size = |n: int| if n >= 0 {
        n
    } else {
        -n
    };
    lemma_rounded(size(low), 1);
    lemma_rounded(size(high), 1);
    if low >= 0 {
        law_rounding_keeps_order(low, high, 1);
    } else if high < 0 {
        law_rounding_keeps_order(-high, -low, 1);
    }
}

proof fn lemma_sum_is_nearest(a: Scalar, b: Scalar)
    requires
        a.is_finite(),
        b.is_finite(),
    ensures
        a.plus(b).rank() == nearest(a.units() + b.units()).rank(),
        !a.plus(b).is_nan(),
{
    let total = a.units() + b.units();
    lemma_small_units(0);
    law_exact_results_are_kept(0, 1);
    if total >= 0 {
        lemma_rounded(total, 1);
    } else {
        lemma_rounded(-total, 1);
    }
}

proof fn lemma_exact_is_nearest(a: Scalar)
    requires
        a.is_finite(),
    ensures
        nearest(a.units()).rank() == a.rank(),
{
    lemma_small_units(0);
    if a.magnitude() > 0 {
        lemma_units_monotone(0, a.magnitude());
    }
    law_exact_results_are_kept(a.magnitude(), 1);
    law_exact_results_are_kept(0, 1);
}

/// A sum lies on the same side of any number as the exact sum of what is added, or on that
/// number: rounding never carries it past.
pub proof fn law_sums_do_not_pass_numbers(a: Scalar, b: Scalar, number: Scalar)
    requires
        a.is_finite(),
        b.is_finite(),
        number.is_finite(),
    ensures
        a.units() + b.units() <= number.units() ==> a.plus(b).at_most(number),
        number.units() <= a.units() + b.units() ==> number.at_most(a.plus(b)),
        a.units() + b.units() == number.units() ==> a.plus(b).same_number(number),
{
    let total = a.units() + b.units();
    lemma_sum_is_nearest(a, b);
    lemma_exact_is_nearest(number);
    if total <= number.units() {
        lemma_nearest_in_order(total, number.units());
    }
    if number.units() <= total {
        lemma_nearest_in_order(number.units(), total);
    }
}

/// Adding to a larger number gives no smaller sum.
pub proof fn law_sums_keep_order(a: Scalar, b: Scalar, added: Scalar)
    requires
        a.is_finite(),
        b.is_finite(),
        added.is_finite(),
        a.at_most(b),
    ensures
        a.plus(added).at_most(b.plus(added)),
{
    crate::scalar::law_rank_orders_numbers(a, b);
    lemma_sum_is_nearest(a, added);
    lemma_sum_is_nearest(b, added);
    lemma_nearest_in_order(a.units() + added.units(), b.units() + added.units());
}

/// A difference is the sum with the opposite number, which is as far from zero on the other
/// side.
pub proof fn law_opposites(a: Scalar, b: Scalar)
    ensures
        a.negated().units() == -a.units(),
        a.negated().is_finite() == a.is_finite(),
        a.minus(b) == a.plus(b.negated()),
        a.is_finite() && b.is_finite() && a.units() == b.units() ==> a.minus(b).units() == 0,
{
    if a.is_finite() && b.is_finite() && a.units() == b.units() {
        lemma_small_units(0);
    }
}

/// A magnitude that is not exceeded exactly is not exceeded when rounded, and the other way
/// round.
proof fn lemma_rounded_against(n: int, d: int, magnitude: int)
    requires
        0 <= n,
        0 < d,
        0 <= magnitude < INFINITY_BITS,
    ensures
        n <= magnitude_units(magnitude) * d ==> capped(rounded(n, d)) <= magnitude,
        magnitude_units(magnitude) * d <= n ==> magnitude <= capped(rounded(n, d)),
{
    let exact = magnitude_units(magnitude) * d;
    lemma_rounded(n, d);
    law_exact_results_are_kept(magnitude, d);
    lemma_small_units(0);
    if magnitude > 0 {
        lemma_units_monotone(0, magnitude);
    }
    assert(0 <= exact) by (nonlinear_arith)
        requires
            exact == magnitude_units(magnitude) * d,
            0 <= magnitude_units(magnitude),
            0 < d,
    ;
    if n <= exact {
        law_rounding_keeps_order(n, exact, d);
    }
    if exact <= n {
        law_rounding_keeps_order(exact, n, d);
    }
}

/// A product lies on the same side of any number as the exact product, or on that number:
/// here of values without their signs, counted in units of which 2 to the 149 are one.
pub proof fn law_products_do_not_pass_numbers(a: Scalar, b: Scalar, number: Scalar)
    requires
        a.is_finite() && !a.signed(),
        b.is_finite() && !b.signed(),
        number.is_finite() && !number.signed(),
    ensures
        a.units() * b.units() <= number.units() * pow2(149) ==> a.times(b).at_most(number),
        number.units() * pow2(149) <= a.units() * b.units() ==> number.at_most(a.times(b)),
{
    lemma_pow2_pos(149);
    lemma_small_units(0);
    if a.magnitude() > 0 {
        lemma_units_monotone(0, a.magnitude());
    }
    if b.magnitude() > 0 {
        lemma_units_monotone(0, b.magnitude());
    }
    let n = a.units() * b.units();
    assert(0 <= n) by (nonlinear_arith)
        requires
            n == a.units() * b.units(),
            0 <= a.units(),
            0 <= b.units(),
    ;
    lemma_rounded_against(n, pow2(149) as int, number.magnitude());
    lemma_rounded(n, pow2(149) as int);
}

/// A quotient lies on the same side of any number as the exact quotient, or on that number:
/// here of values without their signs, the divisor not zero.
pub proof fn law_quotients_do_not_pass_numbers(a: Scalar, b: Scalar, number: Scalar)
    requires
        a.is_finite() && !a.signed(),
        b.is_finite() && !b.signed() && b.magnitude() > 0,
        number.is_finite() && !number.signed(),
    ensures
        a.units() * pow2(149) <= number.units() * b.units() ==> a.over(b).at_most(number),
        number.units() * b.units() <= a.units() * pow2(149) ==> number.at_most(a.over(b)),
{
    lemma_pow2_pos(149);
    lemma_small_units(0);
    lemma_units_monotone(0, b.magnitude());
    if a.magnitude() > 0 {
        lemma_units_monotone(0, a.magnitude());
    }
    let n = a.units() * pow2(149);
    assert(0 <= n) by (nonlinear_arith)
        requires
            n == a.units() * pow2(149),
            0 <= a.units(),
    ;
    lemma_rounded_against(n, b.units(), number.magnitude());
    lemma_rounded(n, b.units());
}

/// Products and quotients go by the sign rule: turning one sign round turns the result's, and
/// products are the same either way round.
pub proof fn law_signs_multiply(a: Scalar, b: Scalar)
    ensures
        a.times(b) == b.times(a),
        !a.times(b).is_nan() ==> a.negated().times(b) == a.times(b).negated(),
        !a.over(b).is_nan() ==> a.negated().over(b) == a.over(b).negated(),
        !a.over(b).is_nan() ==> a.over(b.negated()) == a.over(b).negated(),
{
    let (m, n) = (magnitude_units(a.magnitude()), magnitude_units(b.magnitude()));
    assert(m * n == n * m) by (nonlinear_arith);
    if a.is_finite() && b.is_finite() {
        lemma_pow2_pos(149);
        lemma_small_units(0);
        if a.magnitude() > 0 {
            lemma_units_monotone(0, a.magnitude());
        }
        if b.magnitude() > 0 {
            lemma_units_monotone(0, b.magnitude());
        }
        assert(0 <= m * n) by (nonlinear_arith)
            requires
                0 <= m,
                0 <= n,
        ;
        assert(0 <= m * pow2(149)) by (nonlinear_arith)
            requires
                0 <= m,
        ;
        lemma_rounded(m * n, pow2(149) as int);
        if n > 0 {
            lemma_rounded(m * pow2(149), n);
        }
    }
}

/// The whole part of a number: no farther from zero than the number, and less than one away
/// from it; numbers beyond an `i32` are cut off at its ends, and what is no number is zero.
pub proof fn law_whole_part(a: Scalar)
    ensures
        a.is_nan() ==> a.truncated() == 0,
        i32::MIN <= a.truncated() <= i32::MAX,
        a.is_finite() && i32::MIN < a.truncated() < i32::MAX ==> {
            let size = if a.signed() {
                -a.truncated()
            } else {
                a.truncated()
            };
            &&& size * pow2(149) <= a.unsigned().units()
            &&& a.unsigned().units() < (size + 1) * pow2(149)
        },
        !a.is_nan() && a.truncated() == i32::MAX ==> !a.signed(),
        a.truncated() == i32::MIN ==> a.signed(),
{
    let one = pow2(149) as int;
    lemma_pow2_pos(149);
    lemma_small_units(0);
    if a.is_finite() {
        let m = magnitude_units(a.magnitude());
        if a.magnitude() > 0 {
            lemma_units_monotone(0, a.magnitude());
        }
        vstd::arithmetic::div_mod::lemma_fundamental_div_mod(m, one);
        vstd::arithmetic::div_mod::lemma_mod_bound(m, one);
        let whole = m / one;
        assert(whole >= 0) by (nonlinear_arith)
            requires
                whole == m / one,
                m >= 0,
                one > 0,
        ;
        assert(one * whole == whole * one && (whole + 1) * one == whole * one + one)
            by (nonlinear_arith);
    }
}

/// Zero times a finite number is zero, of either sign, and zero divided by a finite number
/// other than zero is as well.
pub proof fn law_zero_times(zero: Scalar, a: Scalar)
    requires
        zero.magnitude() == 0,
        a.is_finite(),
    ensures
        zero.times(a).magnitude() == 0,
        a.times(zero).magnitude() == 0,
        a.magnitude() > 0 ==> zero.over(a).magnitude() == 0,
{
    lemma_small_units(0);
    lemma_pow2_pos(149);
    law_exact_results_are_kept(0, pow2(149) as int);
    law_signs_multiply(zero, a);
    let m = magnitude_units(a.magnitude());
    assert(0 * m == 0 && m * 0 == 0 && 0 * pow2(149) == 0) by (nonlinear_arith);
    if a.magnitude() > 0 {
        lemma_units_monotone(0, a.magnitude());
        law_exact_results_are_kept(0, m);
    }
}

/// Adding zero, of either sign, leaves a finite number that is not zero as it is; zeros add
/// up to zero.
pub proof fn law_plus_zero(a: Scalar, zero: Scalar)
    requires
        a.is_finite(),
        zero.magnitude() == 0,
    ensures
        a.magnitude() > 0 ==> a.plus(zero) == a && zero.plus(a) == a,
        a.magnitude() == 0 ==> a.plus(zero).magnitude() == 0,
        a.plus(zero).same_number(a),
        zero.plus(a).same_number(a),
{
    lemma_small_units(0);
    law_sums_do_not_pass_numbers(a, zero, a);
    law_sums_commute(a, zero);
}

/// Sums depend on numbers only, not on the sign of zeros.
pub proof fn law_sums_of_same_numbers(a: Scalar, b: Scalar, c: Scalar, d: Scalar)
    requires
        a.is_finite(),
        b.is_finite(),
        c.is_finite(),
        d.is_finite(),
        a.same_number(c),
        b.same_number(d),
    ensures
        a.plus(b).same_number(c.plus(d)),
        a.minus(b).same_number(c.minus(d)),
{
    lemma_small_units(0);
    assert(a.units() == c.units());
    assert(b.units() == d.units());
    lemma_sum_is_nearest(a, b);
    lemma_sum_is_nearest(c, d);
    lemma_sum_is_nearest(a, b.negated());
    lemma_sum_is_nearest(c, d.negated());
}

/// Differences the other way round are as far from zero on the other side.
pub proof fn law_differences_turn_round(a: Scalar, b: Scalar)
    requires
        a.is_finite(),
        b.is_finite(),
    ensures
        b.minus(a).rank() == -a.minus(b).rank(),
{
    let total = a.units() - b.units();
    lemma_sum_is_nearest(a, b.negated());
    lemma_sum_is_nearest(b, a.negated());
    law_opposites(a, b);
    law_opposites(b, a);
    law_exact_results_are_kept(0, 1);
    lemma_small_units(0);
    if total >= 0 {
        lemma_rounded(total, 1);
    } else {
        lemma_rounded(-total, 1);
    }
}

/// Quotients of the same numbers, shifted by a finite number other than zero, are the same.
pub proof fn law_shifted_quotients(a: Scalar, c: Scalar, d: Scalar, shift: Scalar)
    requires
        a.is_finite(),
        c.is_finite(),
        a.same_number(c),
        d.is_finite(),
        d.magnitude() > 0,
        shift.is_finite(),
        shift.magnitude() > 0,
    ensures
        a.over(d).plus(shift) == c.over(d).plus(shift),
        shift.minus(a.over(d)) == shift.minus(c.over(d)),
{
    if a.magnitude() == 0 {
        law_zero_times(a, d);
        law_zero_times(c, d);
        law_plus_zero(shift, a.over(d));
        law_plus_zero(shift, c.over(d));
        law_plus_zero(shift, a.over(d).negated());
        law_plus_zero(shift, c.over(d).negated());
    } else {
        assert(a == c);
    }
}

/// Divided by minus one, a finite number is as far from zero on the other side.
pub proof fn law_over_minus_one(a: Scalar)
    requires
        a.is_finite(),
    ensures
        a.over(Scalar { bits: 0xbf80_0000 }) == a.negated(),
{
    lemma_one();
    let one = pow2(149) as int;
    lemma_pow2_pos(149);
    law_exact_results_are_kept(a.magnitude(), one);
    lemma_small_units(0);
}

/// One times a finite number is that number.
pub proof fn law_one_times(a: Scalar)
    requires
        a.is_finite(),
    ensures
        a.times(Scalar { bits: 0x3f80_0000 }) == a,
        a.times(Scalar { bits: 0xbf80_0000 }) == a.negated(),
        (Scalar { bits: 0x3f80_0000 }).times(a) == a,
        (Scalar { bits: 0xbf80_0000 }).times(a) == a.negated(),
{
    lemma_one();
    lemma_pow2_pos(149);
    law_exact_results_are_kept(a.magnitude(), pow2(149) as int);
    law_signs_multiply(a, Scalar { bits: 0x3f80_0000 });
    law_signs_multiply(a, Scalar { bits: 0xbf80_0000 });
}

/// Whether a number is no farther from zero than the single with these bits.
pub open spec fn within(a: Scalar, bits: int) -> bool {
    -bits <= a.rank() <= bits
}

/// Two numbers within a limit add up to one within twice that limit.
pub proof fn law_sums_stay_within(a: Scalar, b: Scalar, limit: u32)
    requires
        0x100_0000 <= limit < 0x7f00_0000,
        within(a, limit as int),
        within(b, limit as int),
    ensures
        within(a.plus(b), limit + 0x80_0000),
        within(a.minus(b), limit + 0x80_0000),
        a.plus(b).is_finite(),
        a.minus(b).is_finite(),
{
    let once = Scalar { bits: limit };
    let twice = Scalar { bits: (limit + 0x80_0000) as u32 };
    crate::scalar::law_half_of_number(twice);
    assert(twice.halved() == once);
    assert(twice.units() == 2 * once.units());
    lemma_within(a, limit);
    lemma_within(b, limit);
    law_opposites(b, b);
    law_opposites(twice, twice);
    law_sums_do_not_pass_numbers(a, b, twice);
    law_sums_do_not_pass_numbers(a, b, twice.negated());
    law_sums_do_not_pass_numbers(a, b.negated(), twice);
    law_sums_do_not_pass_numbers(a, b.negated(), twice.negated());
}

proof fn lemma_within(a: Scalar, limit: u32)
    requires
        limit < INFINITY_BITS,
        within(a, limit as int),
    ensures
        a.is_finite(),
        -magnitude_units(limit as int) <= a.units() <= magnitude_units(limit as int),
{
    lemma_small_units(0);
    if a.magnitude() > 0 {
        lemma_units_monotone(0, a.magnitude());
    }
    if a.magnitude() < limit {
        lemma_units_monotone(a.magnitude(), limit as int);
    }
}

} // verus!
