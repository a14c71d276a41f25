//! Lengths of time in seconds, as singles.

use crate::geometry::ONE_BITS;
use crate::rounding::{
    capped, law_exact_results_are_kept, law_rounding_keeps_order, lemma_one, lemma_packed,
    lemma_rounded, lemma_rounded_is, rounded, rounds_to, UNIT_EXPONENT,
};
use crate::scalar::{
    fraction_span, lemma_small_units, lemma_units_monotone, magnitude_units, Scalar, INFINITY_BITS,
};
use vstd::arithmetic::power2::{lemma_pow2_adds, lemma_pow2_pos, lemma_pow2_unfold, pow2};
use vstd::prelude::*;

verus! {

/// 1e9, the nanoseconds of a second.
pub const BILLION_BITS: u32 = 0x4e6e_6b28;

/// Nanoseconds beyond the whole seconds, as a part of a second.
pub open spec fn part_of_second(nanos: int) -> Scalar {
    Scalar::of_count(nanos).over(Scalar { bits: BILLION_BITS })
}

/// Nanoseconds in seconds: the whole seconds, and the nanoseconds beyond them as a part of
/// a second, each rounded before they are added.
pub open spec fn in_seconds(nanos: int) -> Scalar {
    Scalar::of_count(nanos / 1_000_000_000).plus(part_of_second(nanos % 1_000_000_000))
}

/// Nanoseconds in seconds.
pub fn seconds(nanos: u128) -> (value: Scalar)
    ensures
        value == in_seconds(nanos as int),
{
    let whole = Scalar::from_count(nanos / 1_000_000_000);
    let rest = Scalar::from_count(nanos % 1_000_000_000);
    whole.sum(rest.quotient(Scalar { bits: BILLION_BITS }))
}

/// What is too large to be counted here: two to the 127th.
pub open spec fn count_limit() -> int {
    0x8000_0000_0000_0000_0000_0000_0000_0000
}

/// A single without a sign below two to the 128th.
pub open spec fn plain(a: Scalar) -> bool {
    a.bits < INFINITY_BITS
}

proof fn lemma_units_at_least_zero(m: int)
    requires
        0 <= m,
    ensures
        0 <= magnitude_units(m),
        0 < m ==> 0 < magnitude_units(m),
{
    lemma_small_units(0);
    if m > 0 {
        lemma_units_monotone(0, m);
    }
}

proof fn lemma_units_in_order(low: int, high: int)
    requires
        0 <= low <= high,
    ensures
        0 <= magnitude_units(low) <= magnitude_units(high),
{
    lemma_units_at_least_zero(low);
    if low < high {
        lemma_units_monotone(low, high);
    }
}

proof fn lemma_limit()
    ensures
        count_limit() * pow2(UNIT_EXPONENT as nat) == magnitude_units(0x7f00_0000),
{
    vstd::arithmetic::power2::lemma2_to64();
    vstd::arithmetic::power2::lemma2_to64_rest();
    lemma_pow2_adds(64, 63);
    lemma_pow2_adds(127, UNIT_EXPONENT as nat);
    lemma_pow2_adds(23, 253);
    assert(0x7f00_0000int / fraction_span() == 254 && 0x7f00_0000int % fraction_span() == 0);
}

/// The single nearest to a count, and how it is ordered.
pub proof fn lemma_count(n: int)
    requires
        0 <= n <= count_limit(),
    ensures
        plain(Scalar::of_count(n)),
        Scalar::of_count(n).bits == rounded(n * pow2(UNIT_EXPONENT as nat), 1),
        rounds_to(Scalar::of_count(n).bits as int, n * pow2(UNIT_EXPONENT as nat), 1),
{
    let d = pow2(UNIT_EXPONENT as nat) as int;
    lemma_pow2_pos(UNIT_EXPONENT as nat);
    lemma_limit();
    assert(0 <= n * d <= count_limit() * d) by (nonlinear_arith)
        requires
            0 <= n <= count_limit(),
            d > 0,
    ;
    law_exact_results_are_kept(0x7f00_0000, 1);
    law_rounding_keeps_order(n * d, count_limit() * d, 1);
    lemma_rounded(n * d, 1);
}

proof fn lemma_counts_in_order(low: int, high: int)
    requires
        0 <= low <= high <= count_limit(),
    ensures
        Scalar::of_count(low).bits <= Scalar::of_count(high).bits,
{
    let d = pow2(UNIT_EXPONENT as nat) as int;
    lemma_count(low);
    lemma_count(high);
    assert(0 <= low * d <= high * d) by (nonlinear_arith)
        requires
            0 <= low <= high,
            d >= 0,
    ;
    law_rounding_keeps_order(low * d, high * d, 1);
}

proof fn lemma_capped_in_order(low: int, high: int)
    requires
        0 <= low <= high,
    ensures
        capped(low) <= capped(high) <= INFINITY_BITS,
{
}

/// Sums of singles without a sign keep their order.
proof fn lemma_sums_in_order(a: Scalar, b: Scalar, c: Scalar, e: Scalar)
    requires
        plain(a),
        plain(b),
        plain(c),
        plain(e),
        a.bits <= b.bits,
        c.bits <= e.bits,
    ensures
        a.plus(c).bits <= b.plus(e).bits <= INFINITY_BITS,
{
    lemma_units_in_order(a.bits as int, b.bits as int);
    lemma_units_in_order(c.bits as int, e.bits as int);
    let low = a.units() + c.units();
    let high = b.units() + e.units();
    law_rounding_keeps_order(low, high, 1);
    lemma_capped_in_order(rounded(low, 1), rounded(high, 1));
}

/// Quotients of singles without a sign keep the order of what is divided.
pub proof fn lemma_quotients_in_order(a: Scalar, b: Scalar, d: Scalar)
    requires
        a.bits <= b.bits < INFINITY_BITS,
        0 < d.bits < INFINITY_BITS,
    ensures
        a.over(d).bits <= b.over(d).bits <= INFINITY_BITS,
{
    let p = pow2(UNIT_EXPONENT as nat) as int;
    lemma_pow2_pos(UNIT_EXPONENT as nat);
    lemma_units_in_order(a.bits as int, b.bits as int);
    lemma_units_at_least_zero(d.bits as int);
    let low = magnitude_units(a.magnitude()) * p;
    let high = magnitude_units(b.magnitude()) * p;
    assert(0 <= low <= high) by (nonlinear_arith)
        requires
            low == magnitude_units(a.magnitude()) * p,
            high == magnitude_units(b.magnitude()) * p,
            0 <= magnitude_units(a.magnitude()) <= magnitude_units(b.magnitude()),
            p > 0,
    ;
    let by = magnitude_units(d.magnitude());
    law_rounding_keeps_order(low, high, by);
    lemma_capped_in_order(rounded(low, by), rounded(high, by));
}

/// What is divided by itself is one.
pub proof fn lemma_quotient_of_same(d: Scalar)
    requires
        0 < d.bits < INFINITY_BITS,
    ensures
        d.over(d).bits == ONE_BITS,
{
    let p = pow2(UNIT_EXPONENT as nat) as int;
    let u = magnitude_units(d.magnitude());
    lemma_one();
    lemma_units_at_least_zero(d.bits as int);
    law_exact_results_are_kept(ONE_BITS as int, u);
    assert(u * p == p * u) by (nonlinear_arith);
}

proof fn lemma_billion()
    ensures
        Scalar::of_count(1_000_000_000).bits == BILLION_BITS,
{
    let d = pow2(UNIT_EXPONENT as nat) as int;
    vstd::arithmetic::power2::lemma2_to64();
    lemma_pow2_adds(6, UNIT_EXPONENT as nat);
    assert(BILLION_BITS as int / fraction_span() == 156);
    assert(BILLION_BITS as int % fraction_span() == 15_625_000 - 0x80_0000);
    assert(magnitude_units(BILLION_BITS as int) == 15_625_000 * pow2(155));
    assert(15_625_000 * (64 * d) == 1_000_000_000 * d);
    law_exact_results_are_kept(BILLION_BITS as int, 1);
}

/// A part of a second is at most a second, and the order of the nanoseconds.
proof fn lemma_parts_in_order(low: int, high: int)
    requires
        0 <= low <= high <= 1_000_000_000,
    ensures
        part_of_second(low).bits <= part_of_second(high).bits <= ONE_BITS,
{
    let second = Scalar { bits: BILLION_BITS };
    lemma_counts_in_order(low, high);
    lemma_counts_in_order(high, 1_000_000_000);
    lemma_count(low);
    lemma_count(high);
    lemma_billion();
    lemma_quotients_in_order(Scalar::of_count(low), Scalar::of_count(high), second);
    lemma_quotients_in_order(Scalar::of_count(high), second, second);
    lemma_quotient_of_same(second);
}

/// A fraction of any size under an exponent is a single.
proof fn lemma_short_number(c: int, x: int) -> (m: int)
    requires
        0 < c < 2 * fraction_span(),
        0 <= x,
    ensures
        m >= 0,
        magnitude_units(m) == c * pow2(x as nat),
    decreases x,
{
    assert(0 <= x * fraction_span()) by (nonlinear_arith)
        requires
            x >= 0,
            fraction_span() == 0x80_0000,
    ;
    if x == 0 || c >= fraction_span() {
        lemma_packed(c, x);
        x * fraction_span() + c
    } else {
        lemma_pow2_unfold(x as nat);
        let narrow = pow2((x - 1) as nat) as int;
        assert((2 * c) * narrow == c * (2 * narrow)) by (nonlinear_arith);
        lemma_short_number(2 * c, x - 1)
    }
}

/// Above the numbers that have a fraction, a single counts whole numbers.
proof fn lemma_large_is_whole(m: int, n: int)
    requires
        0 <= m,
        0 <= n,
        2 * fraction_span() <= n,
        n * pow2(UNIT_EXPONENT as nat) < magnitude_units(m),
    ensures
        (n + 1) * pow2(UNIT_EXPONENT as nat) <= magnitude_units(m),
{
    let d = pow2(UNIT_EXPONENT as nat) as int;
    let span = fraction_span();
    lemma_pow2_pos(UNIT_EXPONENT as nat);
    lemma_packed(2 * span, UNIT_EXPONENT as int);
    let start = UNIT_EXPONENT * span + 2 * span;
    assert((2 * span) * d <= n * d) by (nonlinear_arith)
        requires
            2 * span <= n,
            d > 0,
    ;
    if m <= start {
        lemma_units_in_order(m, start);
    }
    let x = m / span - 1;
    let c = m % span + span;
    assert(x >= UNIT_EXPONENT);
    let e = pow2((x - UNIT_EXPONENT) as nat) as int;
    lemma_pow2_adds((x - UNIT_EXPONENT) as nat, UNIT_EXPONENT as nat);
    let whole = c * e;
    assert(magnitude_units(m) == whole * d) by (nonlinear_arith)
        requires
            magnitude_units(m) == c * pow2(x as nat),
            pow2(x as nat) == e * d,
            whole == c * e,
    ;
    assert(n < whole) by (nonlinear_arith)
        requires
            n * d < whole * d,
            d > 0,
    ;
    assert((n + 1) * d <= whole * d) by (nonlinear_arith)
        requires
            n + 1 <= whole,
            d > 0,
    ;
}

/// Singles lie no closer to each other further up.
proof fn lemma_gaps_grow(m: int)
    requires
        0 < m,
    ensures
        magnitude_units(m) - magnitude_units(m - 1) <= magnitude_units(m + 1) - magnitude_units(m),
{
    let span = fraction_span();
    if m + 1 < 2 * span {
        lemma_small_units(m - 1);
        lemma_small_units(m);
        lemma_small_units(m + 1);
    } else {
        let x = m / span - 1;
        let c = m % span + span;
        assert(m == x * span + c) by (nonlinear_arith)
            requires
                x == m / span - 1,
                c == m % span + span,
                span == 0x80_0000,
        ;
        let p = pow2(x as nat) as int;
        lemma_pow2_pos(x as nat);
        lemma_packed(c, x);
        lemma_packed(c + 1, x);
        assert((c + 1) * p == c * p + p) by (nonlinear_arith);
        if c > span {
            lemma_packed(c - 1, x);
            assert((c - 1) * p == c * p - p) by (nonlinear_arith);
        } else if x == 0 {
            lemma_small_units(m - 1);
            lemma_small_units(m);
            vstd::arithmetic::power2::lemma2_to64();
        } else {
            let q = pow2((x - 1) as nat) as int;
            lemma_pow2_unfold(x as nat);
            lemma_packed(2 * span - 1, x - 1);
            assert((x - 1) * span + (2 * span - 1) == m - 1) by (nonlinear_arith)
                requires
                    m == x * span + span,
            ;
            assert((2 * span - 1) * q == span * p - q) by (nonlinear_arith)
                requires
                    p == 2 * q,
            ;
        }
    }
}

/// One second more is no less than a second added.
proof fn lemma_next_second(n: int)
    requires
        0 <= n < count_limit(),
    ensures
        Scalar::of_count(n).plus(Scalar { bits: ONE_BITS }).bits <= Scalar::of_count(n + 1).bits,
{
    let d = pow2(UNIT_EXPONENT as nat) as int;
    let m = Scalar::of_count(n).bits as int;
    let u = magnitude_units(m);
    lemma_pow2_pos(UNIT_EXPONENT as nat);
    lemma_count(n);
    lemma_count(n + 1);
    lemma_counts_in_order(n, n + 1);
    lemma_one();
    lemma_units_at_least_zero(m);
    assert((n + 1) * d == n * d + d) by (nonlinear_arith);
    if u <= n * d {
        law_rounding_keeps_order(u + d, (n + 1) * d, 1);
    } else {
        if n == 0 {
            lemma_small_units(0);
            law_exact_results_are_kept(0, 1);
            assert(0 * d == 0);
        } else if n < 2 * fraction_span() {
            let exact = lemma_short_number(n, UNIT_EXPONENT as int);
            law_exact_results_are_kept(exact, 1);
        }
        lemma_large_is_whole(m, n);
        lemma_small_units(0);
        lemma_gaps_grow(m);
        lemma_units_monotone(m - 1, m);
        assert(rounds_to(m, u + d, 1));
        lemma_rounded_is(m, u + d, 1);
    }
}

/// More time is no fewer seconds.
pub proof fn law_seconds_keep_order(short: int, long: int)
    requires
        0 <= short <= long <= u128::MAX,
    ensures
        in_seconds(short).bits <= in_seconds(long).bits < INFINITY_BITS,
{
    let (whole, rest) = (short / 1_000_000_000, short % 1_000_000_000);
    let (more, over) = (long / 1_000_000_000, long % 1_000_000_000);
    let one = Scalar { bits: ONE_BITS };
    let zero = Scalar { bits: 0 };
    lemma_counts_in_order(whole, more);
    lemma_count(whole);
    lemma_count(more);
    lemma_parts_in_order(rest, 1_000_000_000);
    lemma_parts_in_order(0, over);
    if whole == more {
        lemma_parts_in_order(rest, over);
        lemma_sums_in_order(
            Scalar::of_count(whole),
            Scalar::of_count(more),
            part_of_second(rest),
            part_of_second(over),
        );
    } else {
        lemma_next_second(whole);
        lemma_counts_in_order(whole + 1, more);
        lemma_sums_in_order(
            Scalar::of_count(whole),
            Scalar::of_count(whole),
            part_of_second(rest),
            one,
        );
        lemma_sums_in_order(
            Scalar::of_count(more),
            Scalar::of_count(more),
            zero,
            part_of_second(over),
        );
        lemma_small_units(0);
        lemma_units_at_least_zero(Scalar::of_count(more).bits as int);
        law_exact_results_are_kept(Scalar::of_count(more).bits as int, 1);
    }
    lemma_next_second(more);
    lemma_count(more + 1);
    lemma_sums_in_order(
        Scalar::of_count(more),
        Scalar::of_count(more),
        part_of_second(over),
        one,
    );
}

/// Any time at all is some seconds.
pub proof fn law_time_is_not_zero(nanos: int)
    requires
        0 < nanos <= u128::MAX,
    ensures
        0 < in_seconds(nanos).bits,
{
    let d = pow2(UNIT_EXPONENT as nat) as int;
    let second = Scalar { bits: BILLION_BITS };
    let zero = Scalar { bits: 0 };
    let one = Scalar { bits: ONE_BITS };
    lemma_pow2_pos(UNIT_EXPONENT as nat);
    law_seconds_keep_order(1, nanos);
    lemma_count(0);
    lemma_count(1);
    lemma_one();
    lemma_small_units(0);
    law_exact_results_are_kept(0, 1);
    law_exact_results_are_kept(ONE_BITS as int, 1);
    assert(0 * d == 0);
    assert(Scalar::of_count(1) == one);
    assert(Scalar::of_count(0) == zero);
    // A nanosecond is more than the smallest positive single.
    let by = magnitude_units(BILLION_BITS as int);
    lemma_units_in_order(BILLION_BITS as int, ONE_BITS + 30 * fraction_span());
    lemma_small_units(1);
    lemma_packed(fraction_span(), 156);
    vstd::arithmetic::power2::lemma2_to64();
    lemma_pow2_adds(23, 156);
    lemma_pow2_adds(30, UNIT_EXPONENT as nat);
    vstd::arithmetic::power2::lemma_pow2_strictly_increases(30, UNIT_EXPONENT as nat);
    assert(pow2(30) * d <= d * d) by (nonlinear_arith)
        requires
            pow2(30) <= d,
            d > 0,
    ;
    lemma_units_at_least_zero(BILLION_BITS as int);
    law_exact_results_are_kept(1, by);
    law_rounding_keeps_order(by, d * d, by);
    let part = part_of_second(1);
    lemma_parts_in_order(1, 1);
    assert(part.bits > 0);
    lemma_units_at_least_zero(part.bits as int);
    law_exact_results_are_kept(part.bits as int, 1);
}

/// One times a single without a sign is that single, and nothing times it is nothing.
pub proof fn law_times_one(a: Scalar)
    requires
        a.bits < INFINITY_BITS,
    ensures
        (Scalar { bits: ONE_BITS }).times(a) == a,
        a.times(Scalar { bits: ONE_BITS }) == a,
        (Scalar { bits: 0 }).times(a).bits == 0,
        a.times(Scalar { bits: 0 }).bits == 0,
{
    let d = pow2(UNIT_EXPONENT as nat) as int;
    let u = magnitude_units(a.bits as int);
    lemma_pow2_pos(UNIT_EXPONENT as nat);
    lemma_one();
    lemma_small_units(0);
    law_exact_results_are_kept(a.bits as int, d);
    law_exact_results_are_kept(0, d);
    assert(d * u == u * d) by (nonlinear_arith);
    assert(0 * u == 0 && u * 0 == 0 && 0 * d == 0) by (nonlinear_arith);
}

/// Whole seconds are whole numbers: so many seconds and no nanoseconds are the number of
/// the seconds.
pub proof fn law_whole_seconds(count: int)
    requires
        0 <= count <= count_limit(),
    ensures
        in_seconds(count * 1_000_000_000) == Scalar::of_count(count),
{
    let d = pow2(UNIT_EXPONENT as nat) as int;
    assert((count * 1_000_000_000) / 1_000_000_000 == count);
    assert((count * 1_000_000_000) % 1_000_000_000 == 0);
    lemma_count(count);
    lemma_count(0);
    lemma_parts_in_order(0, 0);
    lemma_pow2_pos(UNIT_EXPONENT as nat);
    lemma_small_units(0);
    law_exact_results_are_kept(0, 1);
    lemma_units_at_least_zero(BILLION_BITS as int);
    law_exact_results_are_kept(0, magnitude_units(BILLION_BITS as int));
    law_exact_results_are_kept(Scalar::of_count(count).bits as int, 1);
    lemma_units_at_least_zero(Scalar::of_count(count).bits as int);
    assert(0 * d == 0 && d * 0 == 0) by (nonlinear_arith);
}

/// No time is nothing, and no share of anything.
pub proof fn lemma_nothing_shared(total: Scalar)
    requires
        0 < total.bits < INFINITY_BITS,
    ensures
        Scalar::of_count(0).bits == 0,
        (Scalar { bits: 0 }).over(total).bits == 0,
        Scalar::of_count(0).over(total).bits == 0,
{
    let d = pow2(UNIT_EXPONENT as nat) as int;
    lemma_count(0);
    lemma_small_units(0);
    law_exact_results_are_kept(0, 1);
    lemma_units_at_least_zero(total.bits as int);
    law_exact_results_are_kept(0, magnitude_units(total.bits as int));
    assert(0 * d == 0 && d * 0 == 0) by (nonlinear_arith);
    assert(0 * magnitude_units(total.bits as int) == 0) by (nonlinear_arith);
}

} // verus!
