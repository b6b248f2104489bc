//! Scalar fixed-point helpers: integer square root and sign-aware division.

use vstd::prelude::*;

verus! {

/// Mathematical floor of the square root, defined recursively.
pub open spec fn sqrt_floor(n: int) -> int
    recommends
        n >= 0,
    decreases n,
{
    if n <= 0 {
        0
    } else {
        let r = sqrt_floor(n - 1);
        if (r + 1) * (r + 1) <= n {
            r + 1
        } else {
            r
        }
    }
}

/// `sqrt_floor(n)` is the unique `r >= 0` with `r * r <= n < (r + 1) * (r + 1)`.
pub proof fn lemma_sqrt_floor_bounds(n: int)
    requires
        n >= 0,
    ensures
        0 <= sqrt_floor(n),
        sqrt_floor(n) * sqrt_floor(n) <= n,
        n < (sqrt_floor(n) + 1) * (sqrt_floor(n) + 1),
    decreases n,
{
    if n > 0 {
        lemma_sqrt_floor_bounds(n - 1);
        let r = sqrt_floor(n - 1);
        if (r + 1) * (r + 1) <= n {
            assert(n < (r + 2) * (r + 2)) by (nonlinear_arith)
                requires
                    n <= (r + 1) * (r + 1) + (r + 1) * (r + 1) - r * r - 1,
                    r >= 0,
            {
            }
        }
    }
}

/// Any `r` satisfying the square-root bracketing equals `sqrt_floor(n)`.
pub proof fn lemma_sqrt_floor_unique(n: int, r: int)
    requires
        n >= 0,
        r >= 0,
        r * r <= n,
        n < (r + 1) * (r + 1),
    ensures
        r == sqrt_floor(n),
{
    lemma_sqrt_floor_bounds(n);
    let s = sqrt_floor(n);
    if r < s {
        assert((r + 1) * (r + 1) <= s * s) by (nonlinear_arith)
            requires
                0 <= r + 1 <= s,
        {
        }
    }
    if s < r {
        assert((s + 1) * (s + 1) <= r * r) by (nonlinear_arith)
            requires
                0 <= s + 1 <= r,
        {
        }
    }
}

/// Square roots are monotone: a larger radicand cannot give a smaller root.
pub proof fn lemma_sqrt_floor_monotone(m: int, n: int)
    requires
        0 <= m <= n,
    ensures
        sqrt_floor(m) <= sqrt_floor(n),
{
    lemma_sqrt_floor_bounds(m);
    lemma_sqrt_floor_bounds(n);
    let a = sqrt_floor(m);
    let b = sqrt_floor(n);
    if b < a {
        assert((b + 1) * (b + 1) <= a * a) by (nonlinear_arith)
            requires
                0 <= b + 1 <= a,
        {
        }
    }
}

/// The square root of a perfect square recovers its root.
pub proof fn lemma_sqrt_floor_square(r: int)
    requires
        r >= 0,
    ensures
        sqrt_floor(r * r) == r,
{
    assert(r * r >= 0 && r * r < (r + 1) * (r + 1)) by (nonlinear_arith)
        requires
            r >= 0,
    {
    }
    lemma_sqrt_floor_unique(r * r, r);
}

/// A component is never longer than the whole: if `dx * dx <= n`, then
/// `|dx| <= sqrt_floor(n)`.
pub proof fn lemma_abs_le_sqrt(dx: int, n: int)
    requires
        dx * dx <= n,
    ensures
        -sqrt_floor(n) <= dx <= sqrt_floor(n),
{
    assert(n >= 0) by (nonlinear_arith)
        requires
            dx * dx <= n,
    {
    }
    lemma_sqrt_floor_bounds(n);
    let s = sqrt_floor(n);
    if dx > s {
        assert((s + 1) * (s + 1) <= dx * dx) by (nonlinear_arith)
            requires
                0 <= s + 1 <= dx,
        {
        }
    }
    if dx < -s {
        assert((s + 1) * (s + 1) <= dx * dx) by (nonlinear_arith)
            requires
                dx <= -(s + 1) <= 0,
        {
        }
    }
}

/// Integer square root by binary search.
pub fn isqrt(n: u64) -> (r: u64)
    requires
        n < 9_000_000_000_000_000_000,
    ensures
        r == sqrt_floor(n as int),
        r * r <= n,
        r <= 3_000_000_000,
{
    let mut lo: u64 = 0;
    let mut hi: u64 = 3_000_000_000;
    while lo < hi
        invariant
            lo <= hi <= 3_000_000_000,
            lo * lo <= n,
            n < (hi + 1) * (hi + 1),
        decreases hi - lo,
    {
        let mid: u64 = lo + (hi - lo + 1) / 2;
        assert(mid * mid <= 9_000_000_000_000_000_000) by (nonlinear_arith)
            requires
                mid <= 3_000_000_000,
        {
        }
        if mid * mid <= n {
            lo = mid;
        } else {
            hi = mid - 1;
        }
    }
    proof {
        lemma_sqrt_floor_unique(n as int, lo as int);
    }
    lo
}

/// Division that truncates toward zero, the convention used throughout the
/// fixed-point arithmetic of this crate.  The divisor must be positive.
pub open spec fn sdiv(n: int, d: int) -> int
    recommends
        d > 0,
{
    if n >= 0 {
        n / d
    } else {
        -((-n) / d)
    }
}

/// Truncating division shrinks magnitudes: `|sdiv(n, d)| <= |n| / d <= |n|`.
pub proof fn lemma_sdiv_bound(n: int, d: int, bound: int)
    requires
        d > 0,
        -bound <= n <= bound,
        0 <= bound,
    ensures
        -bound <= sdiv(n, d) * d <= bound,
        -bound <= sdiv(n, d) <= bound,
        n >= 0 ==> 0 <= sdiv(n, d) <= n,
        n <= 0 ==> n <= sdiv(n, d) <= 0,
{
    if n >= 0 {
        assert(0 <= n / d && n / d <= n && 0 <= (n / d) * d && (n / d) * d <= n)
            by (nonlinear_arith)
            requires
                n >= 0,
                d > 0,
        {
        }
    } else {
        assert(0 <= (-n) / d && (-n) / d <= -n && 0 <= ((-n) / d) * d && ((-n) / d) * d <= -n
            && (-((-n) / d)) * d == -(((-n) / d) * d)) by (nonlinear_arith)
            requires
                n < 0,
                d > 0,
        {
        }
    }
}

/// A quotient of non-negative values is non-negative.
pub proof fn lemma_div_nonneg(x: int, d: int)
    requires
        x >= 0,
        d > 0,
    ensures
        x / d >= 0,
{
    assert(x / d >= 0) by (nonlinear_arith)
        requires
            x >= 0,
            d > 0,
    {
    }
}

/// If the numerator is at most `c` times the denominator, the quotient is at most `c`.
pub proof fn lemma_div_le(x: int, c: int, d: int)
    requires
        d > 0,
        x <= c * d,
    ensures
        x / d <= c,
{
    assert(x / d <= c) by (nonlinear_arith)
        requires
            d > 0,
            x <= c * d,
    {
    }
}

/// For a positive divisor, division is monotone in a non-negative numerator.
pub proof fn lemma_div_monotone(x: int, y: int, d: int)
    requires
        d > 0,
        0 <= x <= y,
    ensures
        x / d <= y / d,
{
    assert(x / d <= y / d) by (nonlinear_arith)
        requires
            d > 0,
            0 <= x <= y,
    {
    }
}

/// A symmetric numerator bound carries through truncating division:
/// `|n| <= c * d` gives `|sdiv(n, d)| <= c`.
pub proof fn lemma_sdiv_le(n: int, c: int, d: int)
    requires
        d > 0,
        c >= 0,
        -(c * d) <= n <= c * d,
    ensures
        -c <= sdiv(n, d) <= c,
{
    if n >= 0 {
        lemma_div_nonneg(n, d);
        lemma_div_le(n, c, d);
    } else {
        lemma_div_nonneg(-n, d);
        lemma_div_le(-n, c, d);
    }
}

/// Executable truncating division; mirrors [`sdiv`].
pub fn div_trunc(n: i64, d: i64) -> (r: i64)
    requires
        d > 0,
        n > i64::MIN,
    ensures
        r == sdiv(n as int, d as int),
{
    proof {
        lemma_sdiv_bound(n as int, d as int, if n >= 0 { n as int } else { -(n as int) });
    }
    if n >= 0 {
        n / d
    } else {
        -((-n) / d)
    }
}

} // verus!
