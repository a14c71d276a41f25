//! Arithmetic on bit patterns, held against the machine's.

use clearxr_space::geometry::Vec3;
use clearxr_space::rounding::NAN_BITS;
use clearxr_space::scalar::Scalar;

fn s(value: f32) -> Scalar {
    Scalar::from_bits(value.to_bits())
}

fn num(value: Scalar) -> f32 {
    f32::from_bits(value.to_bits())
}

/// The bits of a number, with one pattern for what is none.
fn bits(value: f32) -> u32 {
    let bits = value.to_bits();
    if bits & 0x7fff_ffff > 0x7f80_0000 {
        NAN_BITS
    } else {
        bits
    }
}

fn hold_against_machine(a: u32, b: u32) {
    let (x, y) = (f32::from_bits(a), f32::from_bits(b));
    let (p, q) = (Scalar::from_bits(a), Scalar::from_bits(b));
    assert_eq!(p.sum(q).to_bits(), bits(x + y), "{:e} + {:e}", x, y);
    assert_eq!(p.difference(q).to_bits(), bits(x - y), "{:e} - {:e}", x, y);
    assert_eq!(p.product(q).to_bits(), bits(x * y), "{:e} * {:e}", x, y);
    assert_eq!(p.quotient(q).to_bits(), bits(x / y), "{:e} / {:e}", x, y);
    assert_eq!(p.square_root().to_bits(), bits(x.sqrt()), "root of {:e}", x);
}

const SPECIAL: [u32; 30] = [
    0x0000_0000, // 0
    0x8000_0000, // -0
    0x0000_0001, // the smallest positive number
    0x8000_0001,
    0x0000_0002,
    0x0000_0003,
    0x007f_ffff, // the largest subnormal number
    0x807f_ffff,
    0x0080_0000, // the smallest normal number
    0x0080_0001,
    0x00ff_ffff,
    0x0100_0000,
    0x3400_0000, // 2^-23
    0x3380_0000, // 2^-24, half a step above 1
    0x3f00_0000, // 0.5
    0x3f7f_ffff, // just below 1
    0x3f80_0000, // 1
    0x3f80_0001, // just above 1
    0xbf80_0000, // -1
    0x3fc0_0000, // 1.5
    0x4040_0000, // 3
    0x4b7f_ffff, // 2^24 - 1
    0x4b80_0000, // 2^24
    0x4b80_0001,
    0x7f00_0000,
    0x7f7f_ffff, // the largest number
    0xff7f_ffff,
    0x7f80_0000, // infinity
    0xff80_0000, // -infinity
    0x7fc0_0000, // no number
];

#[test]
fn special_values_are_the_machines() {
    for a in SPECIAL {
        for b in SPECIAL {
            hold_against_machine(a, b);
        }
    }
}

#[test]
fn any_bits_are_the_machines() {
    let mut seed: u64 = 88172645463325252;
    let mut next = || {
        seed ^= seed << 13;
        seed ^= seed >> 7;
        seed ^= seed << 17;
        (seed >> 16) as u32
    };
    for _ in 0..40000 {
        let (a, b) = (next(), next());
        hold_against_machine(a, b);
        // Of about the same size, so that sums cancel and quotients are near 1.
        hold_against_machine(a, (a & 0xff80_0000) | (b & 0x007f_ffff));
        hold_against_machine(a, a ^ (b & 0x8000_00ff));
        // Products and quotients that leave the normal numbers.
        hold_against_machine(a & 0x9fff_ffff, b & 0x9fff_ffff);
        hold_against_machine(a & 0x807f_ffff, b);
    }
}

#[test]
fn ties_go_to_the_even_number() {
    // 2^24 + 1 lies in the middle of two singles, 2^24 + 3 as well.
    assert_eq!(num(s(16777216.0).sum(s(1.0))), 16777216.0);
    assert_eq!(num(s(16777218.0).sum(s(1.0))), 16777220.0);
    // Half of the smallest positive number is zero, three halves are two of it.
    let tiny = Scalar::from_bits(1);
    assert_eq!(tiny.product(s(0.5)).to_bits(), 0);
    assert_eq!(Scalar::from_bits(3).quotient(s(2.0)).to_bits(), 2);
}

#[test]
fn results_that_fit_are_exact() {
    assert_eq!(num(s(0.75).sum(s(0.5))), 1.25);
    assert_eq!(num(s(0.75).difference(s(0.5))), 0.25);
    assert_eq!(num(s(0.75).product(s(0.5))), 0.375);
    assert_eq!(num(s(0.75).quotient(s(0.5))), 1.5);
    assert_eq!(num(s(2.5).negate()), -2.5);
    assert_eq!(s(0.0).negate().to_bits(), 0x8000_0000);
}

#[test]
fn what_is_too_large_is_infinite() {
    let largest = s(f32::MAX);
    assert_eq!(num(largest.sum(largest)), f32::INFINITY);
    assert_eq!(num(largest.product(s(-2.0))), f32::NEG_INFINITY);
    assert_eq!(num(s(1.0).quotient(s(0.0))), f32::INFINITY);
    assert!(num(s(0.0).quotient(s(0.0))).is_nan());
}

#[test]
fn sums_and_products_do_not_depend_on_the_order() {
    let (a, b) = (s(0.1), s(-7.3));
    assert_eq!(a.sum(b), b.sum(a));
    assert_eq!(a.product(b), b.product(a));
    // Larger summands never give a smaller sum.
    let mut before = f32::NEG_INFINITY;
    for step in -50..50 {
        let total = num(a.sum(s(step as f32 * 0.37)));
        assert!(before <= total);
        before = total;
    }
}

#[test]
fn vectors_are_computed_as_their_components_are() {
    let v = |x: f32, y: f32, z: f32| Vec3 { x: s(x), y: s(y), z: s(z) };
    let (a, b) = (v(0.1, -0.7, 3.3), v(2.9, 0.01, -1.7));
    let (p, q) = (glam::Vec3::new(0.1, -0.7, 3.3), glam::Vec3::new(2.9, 0.01, -1.7));
    let of = |g: glam::Vec3| v(g.x, g.y, g.z);
    assert_eq!(a.plus(b), of(p + q));
    assert_eq!(a.minus(b), of(p - q));
    assert_eq!(a.times(s(0.3)), of(p * 0.3));
    assert_eq!(a.cross(b), of(p.cross(q)));
    assert_eq!(a.dot(b), s(p.dot(q)));
    assert_eq!(a.length(), s(p.length()));
    assert_eq!(a.normalize(), of(p.normalize()));
    assert_eq!(a.normalize_or_zero(), of(p.normalize_or_zero()));
}

#[test]
fn vectors_without_a_direction_normalize_to_zero() {
    let v = |x: f32| Vec3 { x: s(x), y: s(0.0), z: s(0.0) };
    for x in [0.0, -0.0, 1e-30, 1e30, f32::INFINITY, f32::NAN] {
        assert!(v(x).normalize_or_zero().is_zero());
        assert_eq!(glam::Vec3::new(x, 0.0, 0.0).normalize_or_zero(), glam::Vec3::ZERO);
    }
    assert_eq!(num(v(-1e-10).normalize_or_zero().x), -1.0);
    assert!(v(-0.0).is_zero() && !v(f32::NAN).is_zero() && !v(1e-45).is_zero());
}

#[test]
fn roots_undo_squares() {
    for x in [0.25f32, 1.0, 1.5, 3.0, 1024.0, 2.0f32.powi(-30)] {
        assert_eq!(num(s(x).product(s(x)).square_root()), x);
    }
    assert_eq!(num(s(2.0).square_root()), 2.0f32.sqrt());
    assert_eq!(s(-0.0).square_root().to_bits(), 0x8000_0000);
    assert_eq!(s(-1.0).square_root().to_bits(), NAN_BITS);
}

#[test]
fn whole_numbers_round_to_the_nearest_single() {
    for n in [0u128, 1, 7, 16_777_215, 16_777_217, 999_999_999, u64::MAX as u128, 1 << 99] {
        assert_eq!(num(Scalar::from_count(n)), n as f32);
    }
}
