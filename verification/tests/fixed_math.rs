//! Exact-value checks of the scalar fixed-point kernels.

use boids_rs::angle::{atan2_fp, cos_fp, sin_fp};
use boids_rs::math::{div_trunc, isqrt};
use boids_rs::{EIGHTH_TURN, HALF_TURN, QUARTER_TURN, SCALE, TURN};

#[test]
fn isqrt_small_values() {
    assert_eq!(isqrt(0), 0);
    assert_eq!(isqrt(1), 1);
    assert_eq!(isqrt(3), 1);
    assert_eq!(isqrt(4), 2);
    assert_eq!(isqrt(8), 2);
    assert_eq!(isqrt(9), 3);
    assert_eq!(isqrt(99), 9);
}

#[test]
fn isqrt_large_values() {
    assert_eq!(isqrt(1_000_000_000_000_000_000), 1_000_000_000);
    assert_eq!(isqrt(999_999_999_999_999_999), 999_999_999);
    assert_eq!(isqrt(8_999_999_999_999_999_999), 2_999_999_999);
}

#[test]
fn div_trunc_rounds_toward_zero() {
    assert_eq!(div_trunc(7, 2), 3);
    assert_eq!(div_trunc(-7, 2), -3);
    assert_eq!(div_trunc(6, 3), 2);
    assert_eq!(div_trunc(-6, 3), -2);
    assert_eq!(div_trunc(0, 5), 0);
}

#[test]
fn sine_cardinal_directions() {
    assert_eq!(sin_fp(0), 0);
    assert_eq!(sin_fp(QUARTER_TURN), SCALE);
    assert_eq!(sin_fp(HALF_TURN), 0);
    assert_eq!(sin_fp(3 * QUARTER_TURN), -SCALE);
}

#[test]
fn cosine_cardinal_directions() {
    assert_eq!(cos_fp(0), SCALE);
    assert_eq!(cos_fp(QUARTER_TURN), 0);
    assert_eq!(cos_fp(HALF_TURN), -SCALE);
    assert_eq!(cos_fp(3 * QUARTER_TURN), 0);
}

#[test]
fn sine_intermediate_values() {
    // 45 degrees: the approximation gives 0.705882, near sqrt(2)/2.
    assert_eq!(sin_fp(EIGHTH_TURN), 705_882);
    assert_eq!(sin_fp(150_000), 807_692);
    assert_eq!(cos_fp(150_000), 587_155);
    // Quarter-turn shift symmetry.
    assert_eq!(cos_fp(100_000), 807_692);
    assert_eq!(sin_fp(100_000), 587_155);
}

#[test]
fn sine_stays_in_unit_range() {
    let mut a: i64 = 0;
    while a < TURN {
        let s = sin_fp(a);
        let c = cos_fp(a);
        assert!(-SCALE <= s && s <= SCALE);
        assert!(-SCALE <= c && c <= SCALE);
        a += 12_347;
    }
}

#[test]
fn angle_of_cardinal_vectors() {
    assert_eq!(atan2_fp(0, 7), 0);
    assert_eq!(atan2_fp(7, 0), QUARTER_TURN);
    assert_eq!(atan2_fp(0, -7), HALF_TURN);
    assert_eq!(atan2_fp(-7, 0), 3 * QUARTER_TURN);
}

#[test]
fn angle_of_diagonal_vectors() {
    assert_eq!(atan2_fp(5, 5), EIGHTH_TURN);
    assert_eq!(atan2_fp(5, -5), HALF_TURN - EIGHTH_TURN);
    assert_eq!(atan2_fp(-3, -3), HALF_TURN + EIGHTH_TURN);
    assert_eq!(atan2_fp(-3, 3), TURN - EIGHTH_TURN);
}

#[test]
fn angle_always_normalized() {
    let probes: [(i64, i64); 8] = [
        (1, 2),
        (-1, 2),
        (1, -2),
        (-1, -2),
        (1_000_000_000, -1),
        (-1, 1_000_000_000),
        (3, 0),
        (0, -3),
    ];
    for &(y, x) in probes.iter() {
        let a = atan2_fp(y, x);
        assert!(0 <= a && a < TURN);
    }
    assert_eq!(atan2_fp(1, 2), 73_840);
}
