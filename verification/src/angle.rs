//! Fixed-point trigonometry over micro-turn angles.
//!
//! An angle is an integer in `[0, TURN)`, counter-clockwise from the positive
//! x axis.  Sine and cosine are rational approximations (a quadratic over a
//! quadratic, exact at every multiple of a quarter turn) scaled by [`SCALE`];
//! the arc tangent is a quadratically corrected linear approximation, exact on
//! the axes and the diagonals.  Every function is a total, deterministic
//! function of its integer arguments, so results are reproducible bit for bit.

use vstd::prelude::*;

use crate::math::{lemma_div_le, lemma_div_nonneg};
use crate::{EIGHTH_TURN, HALF_TURN, QUARTER_TURN, SCALE, TURN};

verus! {

/// Quadratic correction coefficient of the arc-tangent approximation,
/// about 0.2847 radians expressed in micro-turns.
pub const ATAN_BEND: i64 = 45_360;

/// Sine over the first half turn (`0 <= a <= HALF_TURN`), scaled by `SCALE`.
pub open spec fn sin_half(a: int) -> int
    recommends
        0 <= a <= HALF_TURN,
{
    let h = HALF_TURN as int;
    let s = SCALE as int;
    16 * a * (h - a) * s / (5 * h * h - 4 * a * (h - a))
}

/// Sine of a micro-turn angle, scaled by `SCALE`.
pub open spec fn sin_uturn(a: int) -> int
    recommends
        0 <= a < TURN,
{
    if a <= HALF_TURN {
        sin_half(a)
    } else {
        -sin_half(a - HALF_TURN)
    }
}

/// Cosine of a micro-turn angle, scaled by `SCALE`.
pub open spec fn cos_uturn(a: int) -> int
    recommends
        0 <= a < TURN,
{
    if a + QUARTER_TURN < TURN {
        sin_uturn(a + QUARTER_TURN)
    } else {
        sin_uturn(a + QUARTER_TURN - TURN)
    }
}

/// The half-turn sine stays within `[0, SCALE]`.
pub proof fn lemma_sin_half_range(a: int)
    requires
        0 <= a <= HALF_TURN,
    ensures
        0 <= sin_half(a) <= SCALE,
{
    let h = HALF_TURN as int;
    let num = 16 * a * (h - a) * (SCALE as int);
    let den = 5 * h * h - 4 * a * (h - a);
    assert(num >= 0 && den > 0 && num <= SCALE * den) by (nonlinear_arith)
        requires
            0 <= a <= h,
            h == HALF_TURN as int,
            num == 16 * a * (h - a) * (SCALE as int),
            den == 5 * h * h - 4 * a * (h - a),
    {
        assert((h - 2 * a) * (h - 2 * a) >= 0);
    }
    lemma_div_nonneg(num, den);
    lemma_div_le(num, SCALE as int, den);
}

/// Sine stays within `[-SCALE, SCALE]`.
pub proof fn lemma_sin_range(a: int)
    requires
        0 <= a < TURN,
    ensures
        -SCALE <= sin_uturn(a) <= SCALE,
{
    if a <= HALF_TURN {
        lemma_sin_half_range(a);
    } else {
        lemma_sin_half_range(a - HALF_TURN);
    }
}

/// Cosine stays within `[-SCALE, SCALE]`.
pub proof fn lemma_cos_range(a: int)
    requires
        0 <= a < TURN,
    ensures
        -SCALE <= cos_uturn(a) <= SCALE,
{
    if a + QUARTER_TURN < TURN {
        lemma_sin_range(a + QUARTER_TURN);
    } else {
        lemma_sin_range(a + QUARTER_TURN - TURN);
    }
}

/// Sine and cosine are exact at the four cardinal directions.
pub proof fn lemma_cardinal_values()
    ensures
        sin_uturn(0) == 0,
        sin_uturn(QUARTER_TURN as int) == SCALE,
        sin_uturn(HALF_TURN as int) == 0,
        sin_uturn(3 * QUARTER_TURN) == -SCALE,
        cos_uturn(0) == SCALE,
        cos_uturn(QUARTER_TURN as int) == 0,
        cos_uturn(HALF_TURN as int) == -SCALE,
        cos_uturn(3 * QUARTER_TURN) == 0,
{
    assert(16 * 250_000 * (500_000 - 250_000) * 1_000_000 == 1_000_000_000_000_000_000int)
        by (nonlinear_arith)
    {
    }
    assert(5 * 500_000 * 500_000 - 4 * 250_000 * (500_000 - 250_000) == 1_000_000_000_000int)
        by (nonlinear_arith)
    {
    }
    assert(1_000_000_000_000_000_000int / 1_000_000_000_000int == 1_000_000int);
    assert(sin_half(250_000) == SCALE);
}

/// Sine of an angle in micro-turns, scaled by `SCALE`.
pub fn sin_fp(a: i64) -> (r: i64)
    requires
        0 <= a < TURN,
    ensures
        r == sin_uturn(a as int),
        -SCALE <= r <= SCALE,
{
    proof {
        lemma_sin_range(a as int);
    }
    if a <= HALF_TURN {
        sin_half_fp(a)
    } else {
        -sin_half_fp(a - HALF_TURN)
    }
}

/// Cosine of an angle in micro-turns, scaled by `SCALE`.
pub fn cos_fp(a: i64) -> (r: i64)
    requires
        0 <= a < TURN,
    ensures
        r == cos_uturn(a as int),
        -SCALE <= r <= SCALE,
{
    proof {
        lemma_cos_range(a as int);
    }
    if a + QUARTER_TURN < TURN {
        sin_fp(a + QUARTER_TURN)
    } else {
        sin_fp(a + QUARTER_TURN - TURN)
    }
}

fn sin_half_fp(a: i64) -> (r: i64)
    requires
        0 <= a <= HALF_TURN,
    ensures
        r == sin_half(a as int),
        0 <= r <= SCALE,
{
    proof {
        lemma_sin_half_range(a as int);
        assert(0 <= (a as int) * (HALF_TURN - a as int) <= 62_500_000_000) by (nonlinear_arith)
            requires
                0 <= a as int <= HALF_TURN,
        {
        }
    }
    let arch: i64 = a * (HALF_TURN - a);
    proof {
        let ai = a as int;
        let h = HALF_TURN as int;
        let s = SCALE as int;
        assert(16 * (ai * (h - ai)) * s == 16 * ai * (h - ai) * s
            && 4 * (ai * (h - ai)) == 4 * ai * (h - ai)) by (nonlinear_arith)
        {
        }
    }
    let num: i64 = 16 * arch * SCALE;
    let den: i64 = 5 * HALF_TURN * HALF_TURN - 4 * arch;
    num / den
}

/// Arc tangent of a ratio `r` scaled by `SCALE`, for `0 <= r <= SCALE`;
/// the result lies in `[0, EIGHTH_TURN]`.
pub open spec fn atan_ratio(r: int) -> int
    recommends
        0 <= r <= SCALE,
{
    let s = SCALE as int;
    (EIGHTH_TURN * r + ATAN_BEND * r * (s - r) / s) / s
}

/// The ratio arc tangent stays within `[0, EIGHTH_TURN]`.
pub proof fn lemma_atan_ratio_range(r: int)
    requires
        0 <= r <= SCALE,
    ensures
        0 <= atan_ratio(r) <= EIGHTH_TURN,
{
    let s = SCALE as int;
    let bend = ATAN_BEND * r * (s - r);
    assert(0 <= bend && bend <= (ATAN_BEND * (s - r)) * s) by (nonlinear_arith)
        requires
            0 <= r <= s,
            bend == ATAN_BEND * r * (s - r),
    {
    }
    lemma_div_nonneg(bend, s);
    lemma_div_le(bend, ATAN_BEND * (s - r), s);
    let num = EIGHTH_TURN * r + bend / s;
    assert(EIGHTH_TURN * r + ATAN_BEND * (SCALE - r) <= EIGHTH_TURN * SCALE) by (nonlinear_arith)
        requires
            0 <= r <= SCALE,
    {
    }
    lemma_div_nonneg(num, s);
    lemma_div_le(num, EIGHTH_TURN as int, s);
}

fn atan_ratio_fp(r: i64) -> (t: i64)
    requires
        0 <= r <= SCALE,
    ensures
        t == atan_ratio(r as int),
        0 <= t <= EIGHTH_TURN,
{
    proof {
        lemma_atan_ratio_range(r as int);
    }
    let bend: i64 = ATAN_BEND * r;
    assert(0 <= bend * (SCALE - r) <= 45_360_000_000_000_000) by (nonlinear_arith)
        requires
            0 <= r <= SCALE,
            bend == ATAN_BEND * r,
    {
    }
    let curved: i64 = bend * (SCALE - r) / SCALE;
    assert(EIGHTH_TURN * r <= 125_000_000_000) by (nonlinear_arith)
        requires
            0 <= r <= SCALE,
    {
    }
    (EIGHTH_TURN * r + curved) / SCALE
}

/// Angle of a non-negative vector folded into the first quadrant:
/// for `ax, ay >= 0`, not both zero, the result lies in `[0, QUARTER_TURN]`.
pub open spec fn quadrant_angle(ax: int, ay: int) -> int
    recommends
        ax >= 0,
        ay >= 0,
        ax > 0 || ay > 0,
{
    if ax >= ay {
        atan_ratio(ay * (SCALE as int) / ax)
    } else {
        QUARTER_TURN - atan_ratio(ax * (SCALE as int) / ay)
    }
}

/// The folded quadrant angle stays within `[0, QUARTER_TURN]`.
pub proof fn lemma_quadrant_angle_range(ax: int, ay: int)
    requires
        ax >= 0,
        ay >= 0,
        ax > 0 || ay > 0,
    ensures
        0 <= quadrant_angle(ax, ay) <= QUARTER_TURN,
{
    if ax >= ay {
        assert(ay * SCALE <= SCALE * ax) by (nonlinear_arith)
            requires
                0 <= ay <= ax,
        {
        }
        lemma_div_nonneg(ay * (SCALE as int), ax);
        lemma_div_le(ay * (SCALE as int), SCALE as int, ax);
        lemma_atan_ratio_range(ay * (SCALE as int) / ax);
    } else {
        assert(ax * SCALE <= SCALE * ay) by (nonlinear_arith)
            requires
                0 <= ax <= ay,
        {
        }
        lemma_div_nonneg(ax * (SCALE as int), ay);
        lemma_div_le(ax * (SCALE as int), SCALE as int, ay);
        lemma_atan_ratio_range(ax * (SCALE as int) / ay);
    }
}

/// Micro-turn angle of the vector `(x, y)`, for a vector that is not zero;
/// the result lies in `[0, TURN)`.
pub open spec fn atan2_uturn(y: int, x: int) -> int
    recommends
        x != 0 || y != 0,
{
    let ax = if x >= 0 { x } else { -x };
    let ay = if y >= 0 { y } else { -y };
    let q = quadrant_angle(ax, ay);
    if x >= 0 && y >= 0 {
        q
    } else if x < 0 && y >= 0 {
        HALF_TURN - q
    } else if x < 0 {
        HALF_TURN + q
    } else if q == 0 {
        0
    } else {
        TURN - q
    }
}

/// The vector angle is a well-formed micro-turn angle.
pub proof fn lemma_atan2_range(y: int, x: int)
    requires
        x != 0 || y != 0,
    ensures
        0 <= atan2_uturn(y, x) < TURN,
{
    let ax = if x >= 0 { x } else { -x };
    let ay = if y >= 0 { y } else { -y };
    lemma_quadrant_angle_range(ax, ay);
}

/// Micro-turn angle of the vector `(x, y)`.
pub fn atan2_fp(y: i64, x: i64) -> (r: i64)
    requires
        -1_000_000_000 <= x <= 1_000_000_000,
        -1_000_000_000 <= y <= 1_000_000_000,
        x != 0 || y != 0,
    ensures
        r == atan2_uturn(y as int, x as int),
        0 <= r < TURN,
{
    proof {
        lemma_atan2_range(y as int, x as int);
    }
    let ax: i64 = if x >= 0 { x } else { -x };
    let ay: i64 = if y >= 0 { y } else { -y };
    let q: i64 = quadrant_fp(ax, ay);
    if x >= 0 && y >= 0 {
        q
    } else if x < 0 && y >= 0 {
        HALF_TURN - q
    } else if x < 0 {
        HALF_TURN + q
    } else if q == 0 {
        0
    } else {
        TURN - q
    }
}

fn quadrant_fp(ax: i64, ay: i64) -> (q: i64)
    requires
        0 <= ax <= 1_000_000_000,
        0 <= ay <= 1_000_000_000,
        ax > 0 || ay > 0,
    ensures
        q == quadrant_angle(ax as int, ay as int),
        0 <= q <= QUARTER_TURN,
{
    proof {
        lemma_quadrant_angle_range(ax as int, ay as int);
    }
    if ax >= ay {
        proof {
            assert(ay * SCALE <= SCALE * ax) by (nonlinear_arith)
                requires
                    0 <= ay <= ax,
            {
            }
            lemma_div_nonneg(ay as int * SCALE, ax as int);
            lemma_div_le(ay as int * SCALE, SCALE as int, ax as int);
        }
        atan_ratio_fp(ay * SCALE / ax)
    } else {
        proof {
            assert(ax * SCALE <= SCALE * ay) by (nonlinear_arith)
                requires
                    0 <= ax <= ay,
            {
            }
            lemma_div_nonneg(ax as int * SCALE, ay as int);
            lemma_div_le(ax as int * SCALE, SCALE as int, ay as int);
        }
        QUARTER_TURN - atan_ratio_fp(ax * SCALE / ay)
    }
}

} // verus!
