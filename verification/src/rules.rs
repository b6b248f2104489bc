//! The three steering rule evaluators and the combiner.
//!
//! Each evaluator reads an unchanged snapshot of the flock and produces one
//! steering vector for one agent; an agent with no neighbors in range gets
//! the zero vector.  The combiner normalizes the non-zero rule vectors,
//! sums them, and converts the sum to a target heading; a zero sum (all
//! rules quiet, or cancelling unit vectors) leaves the previous target
//! unchanged, so the target heading always stays a well-formed angle.

use vstd::prelude::*;

use crate::angle::{cos_uturn, sin_uturn};
use crate::components::{boid_valid, flock_valid, Boid, Vec2I};
use crate::math::{div_trunc, lemma_div_le, lemma_div_nonneg, lemma_sdiv_le, sdiv, sqrt_floor};
use crate::query::{
    dist2, dist_fp, lemma_neighbor_prefix_len, lemma_neighbor_prefix_membership,
    lemma_within_dist_le_radius, neighbor_seq, neighbors_of, qualifies, within_radius,
};
use crate::{FACTOR_LIMIT, POP_LIMIT, RADIUS_LIMIT, SCALE, SPEED_LIMIT, VEL_LIMIT};

verus! {

/// The linear distance falloff of the separation rule, scaled by `SCALE`:
/// full weight at distance zero, zero weight at the radius boundary.
pub open spec fn falloff_weight(radius: int, d: int) -> int
    recommends
        radius >= 1,
{
    (radius - d) * (SCALE as int) / radius
}

/// One neighbor's separation contribution: the unit vector pointing from the
/// neighbor back toward the agent, weighted by a linear distance falloff
/// (full at distance zero, zero at the radius), scaled by the agent's speed.
/// Coincident agents (distance zero) contribute nothing: normalizing a zero
/// offset is guarded, never a corrupt value.
pub open spec fn sep_contrib(a: Vec2I, b: Vec2I, radius: int, speed: int) -> (int, int) {
    let d = sqrt_floor(dist2(a, b));
    let sc = SCALE as int;
    if d == 0 {
        (0, 0)
    } else {
        let ux = sdiv((a.x - b.x) * sc, d);
        let uy = sdiv((a.y - b.y) * sc, d);
        let w = falloff_weight(radius, d);
        (sdiv(sdiv(ux * w, sc) * speed, sc), sdiv(sdiv(uy * w, sc) * speed, sc))
    }
}

/// The separation falloff is monotone: as a neighbor's distance grows toward
/// the rule radius the weight never increases, and at the radius boundary it
/// is exactly zero.
pub proof fn lemma_falloff_monotone(radius: int, d1: int, d2: int)
    requires
        1 <= radius,
        0 <= d1 <= d2 <= radius,
    ensures
        falloff_weight(radius, d2) <= falloff_weight(radius, d1),
        falloff_weight(radius, radius) == 0,
        falloff_weight(radius, 0) == SCALE,
{
    let sc = SCALE as int;
    assert((radius - d2) * sc <= (radius - d1) * sc);
    assert((radius - d2) * sc / radius <= (radius - d1) * sc / radius) by (nonlinear_arith)
        requires
            radius > 0,
            (radius - d2) * sc <= (radius - d1) * sc,
    {
    }
    assert(falloff_weight(radius, radius) == 0) by {
        lemma_div_nonneg(0, radius);
        lemma_div_le(0, 0, radius);
    }
    assert(radius * sc / radius == sc) by (nonlinear_arith)
        requires
            radius >= 1,
            sc == SCALE as int,
    {
    }
}

/// A neighbor standing exactly at the radius boundary contributes nothing to
/// separation: the falloff weight there is zero.
pub proof fn lemma_sep_contrib_zero_at_radius(a: Vec2I, b: Vec2I, radius: int, speed: int)
    requires
        1 <= radius,
        sqrt_floor(dist2(a, b)) == radius,
    ensures
        sep_contrib(a, b, radius, speed) == (0int, 0int),
{
    let sc = SCALE as int;
    lemma_falloff_monotone(radius, 0, radius);
    let d = sqrt_floor(dist2(a, b));
    let ux = sdiv((a.x - b.x) * sc, d);
    let uy = sdiv((a.y - b.y) * sc, d);
    assert(ux * 0 == 0 && uy * 0 == 0) by (nonlinear_arith) {}
    lemma_div_nonneg(0, sc);
    lemma_div_le(0, 0, sc);
    assert(sdiv(0, sc) == 0);
    assert(0 * speed == 0) by (nonlinear_arith) {}
}

/// For a neighbor standing straight along the x axis at distance `d`, the
/// separation contribution is exact: the falloff weight times the speed
/// (scaled back by `SCALE`), pointing away from the neighbor, with no y
/// component.
pub proof fn lemma_sep_contrib_axis(a: Vec2I, b: Vec2I, radius: int, speed: int)
    requires
        1 <= radius,
        0 <= speed,
        b.y == a.y,
        0 < b.x - a.x <= radius,
    ensures
        sep_contrib(a, b, radius, speed) == (
            -sdiv(falloff_weight(radius, b.x - a.x) * speed, SCALE as int),
            0int,
        ),
        sep_contrib(a, b, radius, speed).0 <= 0,
{
    let sc = SCALE as int;
    let d = b.x - a.x;
    assert((a.x - b.x) * (a.x - b.x) + (a.y - b.y) * (a.y - b.y) == d * d) by (nonlinear_arith)
        requires
            d == b.x - a.x,
            a.y == b.y,
    {
    }
    crate::math::lemma_sqrt_floor_square(d);
    assert(sqrt_floor(dist2(a, b)) == d);
    let w = falloff_weight(radius, d);
    lemma_div_nonneg((radius - d) * sc, radius);
    assert((a.x - b.x) * sc == -(d * sc) && d * sc >= 0) by (nonlinear_arith)
        requires
            d == b.x - a.x,
            d >= 1,
            sc == 1_000_000,
    {
    }
    assert((d * sc) / d == sc) by (nonlinear_arith)
        requires
            d >= 1,
            sc >= 0,
    {
    }
    assert(sdiv((a.x - b.x) * sc, d) == -sc);
    lemma_div_nonneg(0, d);
    crate::math::lemma_div_le(0, 0, d);
    assert((a.y - b.y) * sc == 0 && sdiv(0, d) == 0);
    assert((-sc) * w == -(sc * w) && (sc * w) / sc == w && 0 * w == 0) by (nonlinear_arith)
        requires
            w >= 0,
            sc >= 1,
    {
    }
    lemma_div_nonneg(0, sc);
    crate::math::lemma_div_le(0, 0, sc);
    assert(sdiv((-sc) * w, sc) == -w && sdiv(0 * w, sc) == 0);
    assert((-w) * speed == -(w * speed) && w * speed >= 0 && 0 * speed == 0) by (nonlinear_arith)
        requires
            w >= 0,
            speed >= 0,
    {
    }
    assert(sdiv((-w) * speed, sc) == -sdiv(w * speed, sc));
    assert(sdiv(0 * speed, sc) == 0);
    lemma_div_nonneg(w * speed, sc);
}

/// The separation output magnitude for a single axis-aligned neighbor is
/// non-increasing as the neighbor's distance grows toward the rule radius,
/// and exactly zero at the radius boundary.
pub proof fn lemma_separation_falloff(a: Vec2I, b1: Vec2I, b2: Vec2I, radius: int, speed: int)
    requires
        1 <= radius,
        0 <= speed,
        b1.y == a.y,
        b2.y == a.y,
        0 < b1.x - a.x <= b2.x - a.x <= radius,
    ensures
        sep_contrib(a, b1, radius, speed).0 <= sep_contrib(a, b2, radius, speed).0 <= 0,
        sep_contrib(a, b1, radius, speed).1 == 0 && sep_contrib(a, b2, radius, speed).1 == 0,
        b2.x - a.x == radius ==> sep_contrib(a, b2, radius, speed) == (0int, 0int),
{
    let sc = SCALE as int;
    lemma_sep_contrib_axis(a, b1, radius, speed);
    lemma_sep_contrib_axis(a, b2, radius, speed);
    lemma_falloff_monotone(radius, b1.x - a.x, b2.x - a.x);
    lemma_falloff_monotone(radius, 0, b1.x - a.x);
    let w1 = falloff_weight(radius, b1.x - a.x);
    let w2 = falloff_weight(radius, b2.x - a.x);
    assert(0 <= w2 * speed <= w1 * speed) by (nonlinear_arith)
        requires
            0 <= w2 <= w1,
            0 <= speed,
    {
    }
    crate::math::lemma_div_monotone(w2 * speed, w1 * speed, sc);
    lemma_div_nonneg(w2 * speed, sc);
    if b2.x - a.x == radius {
        assert(w2 == 0);
        assert(0 * speed == 0) by (nonlinear_arith) {}
        lemma_div_nonneg(0, sc);
        crate::math::lemma_div_le(0, 0, sc);
    }
}

/// Separation never pulls toward a neighbor: each component of a
/// contribution carries the sign of the agent-minus-neighbor offset, so the
/// output points away from the crowding neighbor on both axes.
pub proof fn lemma_sep_contrib_directional(a: Vec2I, b: Vec2I, radius: int, speed: int)
    requires
        1 <= radius,
        0 <= speed,
        within_radius(a, b, radius),
    ensures
        a.x >= b.x ==> sep_contrib(a, b, radius, speed).0 >= 0,
        a.x <= b.x ==> sep_contrib(a, b, radius, speed).0 <= 0,
        a.y >= b.y ==> sep_contrib(a, b, radius, speed).1 >= 0,
        a.y <= b.y ==> sep_contrib(a, b, radius, speed).1 <= 0,
{
    let sc = SCALE as int;
    let d = sqrt_floor(dist2(a, b));
    lemma_within_dist_le_radius(a, b, radius);
    if d != 0 {
        let w = falloff_weight(radius, d);
        lemma_div_nonneg((radius - d) * sc, radius);
        lemma_sign_through_sdiv((a.x - b.x) * sc, d, w, speed);
        lemma_sign_through_sdiv((a.y - b.y) * sc, d, w, speed);
    }
}

/// Sign preservation through the separation scaling chain: dividing by a
/// positive length, weighting by a non-negative falloff and speed, and
/// scaling back by `SCALE` never flips the sign of the offset.
proof fn lemma_sign_through_sdiv(n: int, d: int, w: int, speed: int)
    requires
        d > 0,
        w >= 0,
        speed >= 0,
    ensures
        n >= 0 ==> sdiv(sdiv(sdiv(n, d) * w, SCALE as int) * speed, SCALE as int) >= 0,
        n <= 0 ==> sdiv(sdiv(sdiv(n, d) * w, SCALE as int) * speed, SCALE as int) <= 0,
{
    let sc = SCALE as int;
    let u = sdiv(n, d);
    lemma_sdiv_sign(n, d);
    let m1 = u * w;
    assert((u >= 0 ==> m1 >= 0) && (u <= 0 ==> m1 <= 0)) by (nonlinear_arith)
        requires
            m1 == u * w,
            w >= 0,
    {
    }
    lemma_sdiv_sign(m1, sc);
    let m2 = sdiv(m1, sc) * speed;
    assert((sdiv(m1, sc) >= 0 ==> m2 >= 0) && (sdiv(m1, sc) <= 0 ==> m2 <= 0)) by (nonlinear_arith)
        requires
            m2 == sdiv(m1, sc) * speed,
            speed >= 0,
    {
    }
    lemma_sdiv_sign(m2, sc);
}

/// Truncating division preserves the sign of the numerator (weakly).
proof fn lemma_sdiv_sign(n: int, d: int)
    requires
        d > 0,
    ensures
        n >= 0 ==> sdiv(n, d) >= 0,
        n <= 0 ==> sdiv(n, d) <= 0,
{
    if n >= 0 {
        lemma_div_nonneg(n, d);
    } else {
        lemma_div_nonneg(-n, d);
    }
}

/// Sum of separation contributions over a neighbor index list.
pub open spec fn sep_sum(s: Seq<Boid>, ns: Seq<usize>, a: Vec2I, radius: int, speed: int) -> (
    int,
    int,
)
    decreases ns.len(),
{
    if ns.len() == 0 {
        (0, 0)
    } else {
        let prev = sep_sum(s, ns.drop_last(), a, radius, speed);
        let c = sep_contrib(a, s[ns.last() as int].position, radius, speed);
        (prev.0 + c.0, prev.1 + c.1)
    }
}

/// The separation output for agent `i`: the arithmetic mean of the weighted
/// contributions of all neighbors within the separation radius, scaled by the
/// rule's weight factor; exactly zero when no neighbor is in range.
pub open spec fn separation_velocity_spec(s: Seq<Boid>, i: int) -> (int, int) {
    let b = s[i];
    let radius = b.separation.radius as int;
    let ns = neighbor_seq(s, i, radius);
    let sc = SCALE as int;
    if ns.len() == 0 {
        (0, 0)
    } else {
        let total = sep_sum(s, ns, b.position, radius, b.movement.speed as int);
        let n = ns.len() as int;
        (
            sdiv(sdiv(total.0, n) * b.separation.factor, sc),
            sdiv(sdiv(total.1, n) * b.separation.factor, sc),
        )
    }
}

/// One neighbor's separation contribution; each component stays within the
/// agent's speed.
fn sep_contrib_fp(a: Vec2I, b: Vec2I, radius: i64, speed: i64) -> (c: Vec2I)
    requires
        -crate::POS_LIMIT <= a.x <= crate::POS_LIMIT,
        -crate::POS_LIMIT <= a.y <= crate::POS_LIMIT,
        -crate::POS_LIMIT <= b.x <= crate::POS_LIMIT,
        -crate::POS_LIMIT <= b.y <= crate::POS_LIMIT,
        1 <= radius <= RADIUS_LIMIT,
        0 <= speed <= SPEED_LIMIT,
        within_radius(a, b, radius as int),
    ensures
        c.x == sep_contrib(a, b, radius as int, speed as int).0,
        c.y == sep_contrib(a, b, radius as int, speed as int).1,
        -speed <= c.x <= speed,
        -speed <= c.y <= speed,
{
    let d = dist_fp(a, b);
    proof {
        lemma_within_dist_le_radius(a, b, radius as int);
    }
    if d == 0 {
        Vec2I { x: 0, y: 0 }
    } else {
        let dx = a.x - b.x;
        let dy = a.y - b.y;
        proof {
            let di = d as int;
            assert((dy as int) * (dy as int) >= 0 && (dx as int) * (dx as int) >= 0)
                by (nonlinear_arith)
            {
            }
            crate::math::lemma_abs_le_sqrt(dx as int, dist2(a, b));
            crate::math::lemma_abs_le_sqrt(dy as int, dist2(a, b));
            lemma_sdiv_le((dx as int) * (SCALE as int), SCALE as int, di);
            lemma_sdiv_le((dy as int) * (SCALE as int), SCALE as int, di);
        }
        let ux = div_trunc(dx * SCALE, d);
        let uy = div_trunc(dy * SCALE, d);
        proof {
            lemma_div_nonneg((radius - d) as int * (SCALE as int), radius as int);
            lemma_div_le((radius - d) as int * (SCALE as int), SCALE as int, radius as int);
        }
        let w = (radius - d) * SCALE / radius;
        proof {
            assert(-(SCALE as int) * SCALE <= (ux as int) * (w as int) <= (SCALE as int) * SCALE)
                by (nonlinear_arith)
                requires
                    -SCALE <= ux as int <= SCALE,
                    0 <= w as int <= SCALE,
            {
            }
            assert(-(SCALE as int) * SCALE <= (uy as int) * (w as int) <= (SCALE as int) * SCALE)
                by (nonlinear_arith)
                requires
                    -SCALE <= uy as int <= SCALE,
                    0 <= w as int <= SCALE,
            {
            }
            lemma_sdiv_le((ux as int) * (w as int), SCALE as int, SCALE as int);
            lemma_sdiv_le((uy as int) * (w as int), SCALE as int, SCALE as int);
        }
        let wx = div_trunc(ux * w, SCALE);
        let wy = div_trunc(uy * w, SCALE);
        proof {
            assert(-(speed as int) * SCALE <= (wx as int) * (speed as int) <= (speed as int)
                * SCALE && -(speed as int) * SCALE <= (wy as int) * (speed as int) <= (speed as int)
                * SCALE) by (nonlinear_arith)
                requires
                    -SCALE <= wx as int <= SCALE,
                    -SCALE <= wy as int <= SCALE,
                    0 <= speed as int,
            {
            }
            lemma_sdiv_le((wx as int) * (speed as int), speed as int, SCALE as int);
            lemma_sdiv_le((wy as int) * (speed as int), speed as int, SCALE as int);
        }
        Vec2I { x: div_trunc(wx * speed, SCALE), y: div_trunc(wy * speed, SCALE) }
    }
}

/// The separation output for agent `idx` against the snapshot `boids`;
/// see [`separation_velocity_spec`].
pub fn separation_velocity(boids: &Vec<Boid>, idx: usize) -> (v: Vec2I)
    requires
        flock_valid(boids@),
        idx < boids.len(),
    ensures
        v.x == separation_velocity_spec(boids@, idx as int).0,
        v.y == separation_velocity_spec(boids@, idx as int).1,
        -VEL_LIMIT <= v.x <= VEL_LIMIT,
        -VEL_LIMIT <= v.y <= VEL_LIMIT,
{
    let b = boids[idx];
    let radius = b.separation.radius;
    let speed = b.movement.speed;
    let ns = neighbors_of(boids, idx, radius);
    let count = ns.len();
    if count == 0 {
        return Vec2I { x: 0, y: 0 };
    }
    let ghost snapshot = boids@;
    proof {
        lemma_neighbor_prefix_len(snapshot, idx as int, radius as int, snapshot.len() as int);
    }
    let mut sx: i64 = 0;
    let mut sy: i64 = 0;
    let mut k: usize = 0;
    while k < count
        invariant
            flock_valid(snapshot),
            snapshot == boids@,
            idx < boids.len(),
            b == snapshot[idx as int],
            radius == b.separation.radius,
            speed == b.movement.speed,
            1 <= radius <= RADIUS_LIMIT,
            0 <= speed <= SPEED_LIMIT,
            ns@ == neighbor_seq(snapshot, idx as int, radius as int),
            count == ns.len() <= POP_LIMIT,
            k <= count,
            (sx as int, sy as int) == sep_sum(
                snapshot,
                ns@.subrange(0, k as int),
                b.position,
                radius as int,
                speed as int,
            ),
            -((speed as int) * (k as int)) <= sx as int <= (speed as int) * (k as int),
            -((speed as int) * (k as int)) <= sy as int <= (speed as int) * (k as int),
        decreases count - k,
    {
        proof {
            lemma_neighbor_prefix_membership(
                snapshot,
                idx as int,
                radius as int,
                snapshot.len() as int,
            );
            assert(qualifies(snapshot, idx as int, ns@[k as int] as int, radius as int));
        }
        let j = ns[k];
        let c = sep_contrib_fp(b.position, boids[j].position, radius, speed);
        proof {
            let taken = ns@.subrange(0, k as int + 1);
            assert(taken.drop_last() =~= ns@.subrange(0, k as int));
            assert(taken.last() == ns@[k as int]);
            assert((speed as int) * (k as int + 1) == (speed as int) * (k as int) + speed as int
                && 0 <= (speed as int) * (k as int) <= 100_000_000_000) by (nonlinear_arith)
                requires
                    0 <= k as int <= 10_000,
                    0 <= speed as int <= 10_000_000,
            {
            }
        }
        sx = sx + c.x;
        sy = sy + c.y;
        k = k + 1;
    }
    proof {
        assert(ns@.subrange(0, count as int) =~= ns@);
        assert(0 <= (speed as int) * (count as int) <= 100_000_000_000) by (nonlinear_arith)
            requires
                0 <= count as int <= 10_000,
                0 <= speed as int <= 10_000_000,
        {
        }
        lemma_sdiv_le(sx as int, speed as int, count as int);
        lemma_sdiv_le(sy as int, speed as int, count as int);
    }
    let mx = div_trunc(sx, count as i64);
    let my = div_trunc(sy, count as i64);
    let factor = b.separation.factor;
    proof {
        assert(-((VEL_LIMIT as int) * (SCALE as int)) <= (mx as int) * (factor as int) <= (
        VEL_LIMIT as int) * (SCALE as int) && -((VEL_LIMIT as int) * (SCALE as int)) <= (my as int)
            * (factor as int) <= (VEL_LIMIT as int) * (SCALE as int)) by (nonlinear_arith)
            requires
                -10_000_000 <= mx as int <= 10_000_000,
                -10_000_000 <= my as int <= 10_000_000,
                0 <= factor as int <= 100_000_000,
                VEL_LIMIT as int == 1_000_000_000,
                SCALE as int == 1_000_000,
        {
        }
        lemma_sdiv_le((mx as int) * (factor as int), VEL_LIMIT as int, SCALE as int);
        lemma_sdiv_le((my as int) * (factor as int), VEL_LIMIT as int, SCALE as int);
    }
    Vec2I { x: div_trunc(mx * factor, SCALE), y: div_trunc(my * factor, SCALE) }
}

/// One neighbor's alignment contribution: its heading as a unit vector.
pub open spec fn ali_contrib(nb: Boid) -> (int, int) {
    (cos_uturn(nb.heading as int), sin_uturn(nb.heading as int))
}

/// Sum of the heading vectors over a neighbor index list.
pub open spec fn ali_sum(s: Seq<Boid>, ns: Seq<usize>) -> (int, int)
    decreases ns.len(),
{
    if ns.len() == 0 {
        (0, 0)
    } else {
        let prev = ali_sum(s, ns.drop_last());
        let c = ali_contrib(s[ns.last() as int]);
        (prev.0 + c.0, prev.1 + c.1)
    }
}

/// The alignment output for agent `i`: the unweighted arithmetic mean of the
/// neighbors' heading vectors within the alignment radius, scaled by the
/// rule's weight factor; exactly zero when no neighbor is in range.
pub open spec fn alignment_velocity_spec(s: Seq<Boid>, i: int) -> (int, int) {
    let b = s[i];
    let ns = neighbor_seq(s, i, b.alignment.radius as int);
    let sc = SCALE as int;
    if ns.len() == 0 {
        (0, 0)
    } else {
        let total = ali_sum(s, ns);
        let n = ns.len() as int;
        (
            sdiv(sdiv(total.0, n) * b.alignment.factor, sc),
            sdiv(sdiv(total.1, n) * b.alignment.factor, sc),
        )
    }
}

/// The alignment output for agent `idx` against the snapshot `boids`;
/// see [`alignment_velocity_spec`].
pub fn alignment_velocity(boids: &Vec<Boid>, idx: usize) -> (v: Vec2I)
    requires
        flock_valid(boids@),
        idx < boids.len(),
    ensures
        v.x == alignment_velocity_spec(boids@, idx as int).0,
        v.y == alignment_velocity_spec(boids@, idx as int).1,
        -VEL_LIMIT <= v.x <= VEL_LIMIT,
        -VEL_LIMIT <= v.y <= VEL_LIMIT,
{
    let b = boids[idx];
    let radius = b.alignment.radius;
    let ns = neighbors_of(boids, idx, radius);
    let count = ns.len();
    if count == 0 {
        return Vec2I { x: 0, y: 0 };
    }
    let ghost snapshot = boids@;
    proof {
        lemma_neighbor_prefix_len(snapshot, idx as int, radius as int, snapshot.len() as int);
    }
    let mut sx: i64 = 0;
    let mut sy: i64 = 0;
    let mut k: usize = 0;
    while k < count
        invariant
            flock_valid(snapshot),
            snapshot == boids@,
            idx < boids.len(),
            b == snapshot[idx as int],
            radius == b.alignment.radius,
            ns@ == neighbor_seq(snapshot, idx as int, radius as int),
            count == ns.len() <= POP_LIMIT,
            k <= count,
            (sx as int, sy as int) == ali_sum(snapshot, ns@.subrange(0, k as int)),
            -1_000_000 * (k as int) <= sx as int <= 1_000_000 * (k as int),
            -1_000_000 * (k as int) <= sy as int <= 1_000_000 * (k as int),
        decreases count - k,
    {
        proof {
            lemma_neighbor_prefix_membership(
                snapshot,
                idx as int,
                radius as int,
                snapshot.len() as int,
            );
            assert(qualifies(snapshot, idx as int, ns@[k as int] as int, radius as int));
        }
        let j = ns[k];
        let cx = crate::angle::cos_fp(boids[j].heading);
        let cy = crate::angle::sin_fp(boids[j].heading);
        proof {
            let taken = ns@.subrange(0, k as int + 1);
            assert(taken.drop_last() =~= ns@.subrange(0, k as int));
            assert(taken.last() == ns@[k as int]);
        }
        sx = sx + cx;
        sy = sy + cy;
        k = k + 1;
    }
    proof {
        assert(ns@.subrange(0, count as int) =~= ns@);
        lemma_sdiv_le(sx as int, 1_000_000, count as int);
        lemma_sdiv_le(sy as int, 1_000_000, count as int);
    }
    let mx = div_trunc(sx, count as i64);
    let my = div_trunc(sy, count as i64);
    let factor = b.alignment.factor;
    proof {
        scale_by_factor_bound(mx as int, factor as int);
        scale_by_factor_bound(my as int, factor as int);
    }
    Vec2I { x: div_trunc(mx * factor, SCALE), y: div_trunc(my * factor, SCALE) }
}

/// Scaling a unit-range value by a bounded factor stays within `VEL_LIMIT`,
/// both before and after the division by `SCALE`.
proof fn scale_by_factor_bound(m: int, factor: int)
    requires
        -SCALE <= m <= SCALE,
        0 <= factor <= FACTOR_LIMIT,
    ensures
        -((VEL_LIMIT as int) * (SCALE as int)) <= m * factor <= (VEL_LIMIT as int) * (SCALE as int),
        -VEL_LIMIT <= sdiv(m * factor, SCALE as int) <= VEL_LIMIT,
{
    assert(-((VEL_LIMIT as int) * (SCALE as int)) <= m * factor <= (VEL_LIMIT as int) * (
    SCALE as int)) by (nonlinear_arith)
        requires
            -1_000_000 <= m <= 1_000_000,
            0 <= factor <= 100_000_000,
            VEL_LIMIT as int == 1_000_000_000,
            SCALE as int == 1_000_000,
    {
    }
    lemma_sdiv_le(m * factor, VEL_LIMIT as int, SCALE as int);
}

/// Sum of the neighbors' positions over a neighbor index list.
pub open spec fn pos_sum(s: Seq<Boid>, ns: Seq<usize>) -> (int, int)
    decreases ns.len(),
{
    if ns.len() == 0 {
        (0, 0)
    } else {
        let prev = pos_sum(s, ns.drop_last());
        let p = s[ns.last() as int].position;
        (prev.0 + p.x, prev.1 + p.y)
    }
}

/// The cohesion output for agent `i`: the unit vector from the agent toward
/// the centroid of the neighbors within the cohesion radius, scaled by the
/// rule's weight factor — a flat centroid pull with no distance falloff;
/// exactly zero when no neighbor is in range or the agent already stands on
/// the centroid.
pub open spec fn cohesion_velocity_spec(s: Seq<Boid>, i: int) -> (int, int) {
    let b = s[i];
    let ns = neighbor_seq(s, i, b.cohesion.radius as int);
    let sc = SCALE as int;
    if ns.len() == 0 {
        (0, 0)
    } else {
        let total = pos_sum(s, ns);
        let n = ns.len() as int;
        let dx = sdiv(total.0, n) - b.position.x;
        let dy = sdiv(total.1, n) - b.position.y;
        let dc = sqrt_floor(dx * dx + dy * dy);
        if dc == 0 {
            (0, 0)
        } else {
            (
                sdiv(sdiv(dx * sc, dc) * b.cohesion.factor, sc),
                sdiv(sdiv(dy * sc, dc) * b.cohesion.factor, sc),
            )
        }
    }
}

/// The cohesion output for agent `idx` against the snapshot `boids`;
/// see [`cohesion_velocity_spec`].
pub fn cohesion_velocity(boids: &Vec<Boid>, idx: usize) -> (v: Vec2I)
    requires
        flock_valid(boids@),
        idx < boids.len(),
    ensures
        v.x == cohesion_velocity_spec(boids@, idx as int).0,
        v.y == cohesion_velocity_spec(boids@, idx as int).1,
        -VEL_LIMIT <= v.x <= VEL_LIMIT,
        -VEL_LIMIT <= v.y <= VEL_LIMIT,
{
    let b = boids[idx];
    let radius = b.cohesion.radius;
    let ns = neighbors_of(boids, idx, radius);
    let count = ns.len();
    if count == 0 {
        return Vec2I { x: 0, y: 0 };
    }
    let ghost snapshot = boids@;
    proof {
        lemma_neighbor_prefix_len(snapshot, idx as int, radius as int, snapshot.len() as int);
    }
    let mut px: i64 = 0;
    let mut py: i64 = 0;
    let mut k: usize = 0;
    while k < count
        invariant
            flock_valid(snapshot),
            snapshot == boids@,
            idx < boids.len(),
            b == snapshot[idx as int],
            radius == b.cohesion.radius,
            ns@ == neighbor_seq(snapshot, idx as int, radius as int),
            count == ns.len() <= POP_LIMIT,
            k <= count,
            (px as int, py as int) == pos_sum(snapshot, ns@.subrange(0, k as int)),
            -1_000_000_000 * (k as int) <= px as int <= 1_000_000_000 * (k as int),
            -1_000_000_000 * (k as int) <= py as int <= 1_000_000_000 * (k as int),
        decreases count - k,
    {
        proof {
            lemma_neighbor_prefix_membership(
                snapshot,
                idx as int,
                radius as int,
                snapshot.len() as int,
            );
            assert(qualifies(snapshot, idx as int, ns@[k as int] as int, radius as int));
        }
        let j = ns[k];
        let p = boids[j].position;
        proof {
            let taken = ns@.subrange(0, k as int + 1);
            assert(taken.drop_last() =~= ns@.subrange(0, k as int));
            assert(taken.last() == ns@[k as int]);
        }
        px = px + p.x;
        py = py + p.y;
        k = k + 1;
    }
    proof {
        assert(ns@.subrange(0, count as int) =~= ns@);
        lemma_sdiv_le(px as int, 1_000_000_000, count as int);
        lemma_sdiv_le(py as int, 1_000_000_000, count as int);
    }
    let cx = div_trunc(px, count as i64);
    let cy = div_trunc(py, count as i64);
    let dx = cx - b.position.x;
    let dy = cy - b.position.y;
    proof {
        assert(0 <= (dx as int) * (dx as int) <= 4_000_000_000_000_000_000 && 0 <= (dy as int) * (
        dy as int) <= 4_000_000_000_000_000_000) by (nonlinear_arith)
            requires
                -2_000_000_000 <= dx as int <= 2_000_000_000,
                -2_000_000_000 <= dy as int <= 2_000_000_000,
        {
        }
    }
    let d2 = dx * dx + dy * dy;
    let dc = crate::math::isqrt(d2 as u64) as i64;
    if dc == 0 {
        return Vec2I { x: 0, y: 0 };
    }
    proof {
        crate::math::lemma_abs_le_sqrt(dx as int, d2 as int);
        crate::math::lemma_abs_le_sqrt(dy as int, d2 as int);
        lemma_sdiv_le((dx as int) * (SCALE as int), SCALE as int, dc as int);
        lemma_sdiv_le((dy as int) * (SCALE as int), SCALE as int, dc as int);
    }
    let ux = div_trunc(dx * SCALE, dc);
    let uy = div_trunc(dy * SCALE, dc);
    let factor = b.cohesion.factor;
    proof {
        scale_by_factor_bound(ux as int, factor as int);
        scale_by_factor_bound(uy as int, factor as int);
    }
    Vec2I { x: div_trunc(ux * factor, SCALE), y: div_trunc(uy * factor, SCALE) }
}

/// Squared length of a rule vector.
pub open spec fn norm2(v: Vec2I) -> int {
    v.x * v.x + v.y * v.y
}

/// A rule vector normalized to (approximately) unit length at scale `SCALE`,
/// or the zero vector if the input is zero — the integer analogue of guarding
/// a zero-length normalization so that no corrupt value can arise.
pub open spec fn unit_or_zero(v: Vec2I) -> (int, int) {
    if v.is_zero() {
        (0, 0)
    } else {
        let l = sqrt_floor(norm2(v));
        let sc = SCALE as int;
        (sdiv(v.x * sc, l), sdiv(v.y * sc, l))
    }
}

/// The combined steering sum: each non-zero rule vector contributes one unit
/// vector, so every active rule carries equal directional weight.
pub open spec fn combined_sum(sep: Vec2I, ali: Vec2I, coh: Vec2I) -> (int, int) {
    let a = unit_or_zero(sep);
    let b = unit_or_zero(ali);
    let c = unit_or_zero(coh);
    (a.0 + b.0 + c.0, a.1 + b.1 + c.1)
}

/// The combiner's output target heading: the angle of the combined steering
/// sum, or the previous target unchanged when the sum is zero (all rules
/// quiet, or opposing unit vectors cancelling exactly).
pub open spec fn combine_target(sep: Vec2I, ali: Vec2I, coh: Vec2I, prev: int) -> int {
    let total = combined_sum(sep, ali, coh);
    if total.0 == 0 && total.1 == 0 {
        prev
    } else {
        crate::angle::atan2_uturn(total.1, total.0)
    }
}

/// The combiner never corrupts the target heading: for every combination of
/// zero and non-zero rule vectors the output is either the previous target
/// unchanged or a well-formed angle in `[0, TURN)`.
pub proof fn lemma_combine_target_valid(sep: Vec2I, ali: Vec2I, coh: Vec2I, prev: int)
    requires
        0 <= prev < crate::TURN,
    ensures
        0 <= combine_target(sep, ali, coh, prev) < crate::TURN,
        combined_sum(sep, ali, coh) == (0int, 0int) ==> combine_target(sep, ali, coh, prev)
            == prev,
{
    let total = combined_sum(sep, ali, coh);
    if !(total.0 == 0 && total.1 == 0) {
        crate::angle::lemma_atan2_range(total.1, total.0);
    }
}

/// A non-zero vector has a length of at least one, and its normalization
/// stays within `SCALE` per component.
fn unit_or_zero_fp(v: Vec2I) -> (u: Vec2I)
    requires
        -VEL_LIMIT <= v.x <= VEL_LIMIT,
        -VEL_LIMIT <= v.y <= VEL_LIMIT,
    ensures
        u.x == unit_or_zero(v).0,
        u.y == unit_or_zero(v).1,
        -SCALE <= u.x <= SCALE,
        -SCALE <= u.y <= SCALE,
{
    if v.x == 0 && v.y == 0 {
        Vec2I { x: 0, y: 0 }
    } else {
        proof {
            assert(0 <= (v.x as int) * (v.x as int) <= 1_000_000_000_000_000_000 && 0 <= (
            v.y as int) * (v.y as int) <= 1_000_000_000_000_000_000 && (v.x as int) * (v.x as int)
                + (v.y as int) * (v.y as int) >= 1) by (nonlinear_arith)
                requires
                    -1_000_000_000 <= v.x as int <= 1_000_000_000,
                    -1_000_000_000 <= v.y as int <= 1_000_000_000,
                    v.x as int != 0 || v.y as int != 0,
            {
            }
        }
        let d2 = v.x * v.x + v.y * v.y;
        let l = crate::math::isqrt(d2 as u64) as i64;
        proof {
            crate::math::lemma_sqrt_floor_bounds(d2 as int);
            crate::math::lemma_abs_le_sqrt(v.x as int, d2 as int);
            crate::math::lemma_abs_le_sqrt(v.y as int, d2 as int);
            lemma_sdiv_le((v.x as int) * (SCALE as int), SCALE as int, l as int);
            lemma_sdiv_le((v.y as int) * (SCALE as int), SCALE as int, l as int);
        }
        Vec2I { x: div_trunc(v.x * SCALE, l), y: div_trunc(v.y * SCALE, l) }
    }
}

/// Merges the three stored rule vectors into a target heading: each non-zero
/// vector is normalized to unit length, the unit vectors are summed, and the
/// sum's angle becomes the new target; a zero sum leaves `prev_target`
/// unchanged, so the result is always a well-formed angle.
pub fn combine_rules(sep: Vec2I, ali: Vec2I, coh: Vec2I, prev_target: i64) -> (t: i64)
    requires
        -VEL_LIMIT <= sep.x <= VEL_LIMIT,
        -VEL_LIMIT <= sep.y <= VEL_LIMIT,
        -VEL_LIMIT <= ali.x <= VEL_LIMIT,
        -VEL_LIMIT <= ali.y <= VEL_LIMIT,
        -VEL_LIMIT <= coh.x <= VEL_LIMIT,
        -VEL_LIMIT <= coh.y <= VEL_LIMIT,
        0 <= prev_target < crate::TURN,
    ensures
        t == combine_target(sep, ali, coh, prev_target as int),
        0 <= t < crate::TURN,
{
    proof {
        lemma_combine_target_valid(sep, ali, coh, prev_target as int);
    }
    let us = unit_or_zero_fp(sep);
    let ua = unit_or_zero_fp(ali);
    let uc = unit_or_zero_fp(coh);
    let tx = us.x + ua.x + uc.x;
    let ty = us.y + ua.y + uc.y;
    if tx == 0 && ty == 0 {
        prev_target
    } else {
        crate::angle::atan2_fp(ty, tx)
    }
}

/// An agent with an empty neighbor set gets exactly the zero vector from
/// every rule: separation, alignment and cohesion alike — in particular
/// whenever no other agent qualifies as a neighbor at the rule's radius.
pub proof fn lemma_rules_zero_without_neighbors(s: Seq<Boid>, i: int)
    requires
        s.len() <= usize::MAX,
    ensures
        neighbor_seq(s, i, s[i].separation.radius as int).len() == 0
            ==> separation_velocity_spec(s, i) == (0int, 0int),
        neighbor_seq(s, i, s[i].alignment.radius as int).len() == 0
            ==> alignment_velocity_spec(s, i) == (0int, 0int),
        neighbor_seq(s, i, s[i].cohesion.radius as int).len() == 0 ==> cohesion_velocity_spec(
            s,
            i,
        ) == (0int, 0int),
        (forall|j: int|
            0 <= j < s.len() ==> !#[trigger] qualifies(s, i, j, s[i].separation.radius as int))
            ==> separation_velocity_spec(s, i) == (0int, 0int),
        (forall|j: int|
            0 <= j < s.len() ==> !#[trigger] qualifies(s, i, j, s[i].alignment.radius as int))
            ==> alignment_velocity_spec(s, i) == (0int, 0int),
        (forall|j: int|
            0 <= j < s.len() ==> !#[trigger] qualifies(s, i, j, s[i].cohesion.radius as int))
            ==> cohesion_velocity_spec(s, i) == (0int, 0int),
{
    if forall|j: int|
        0 <= j < s.len() ==> !#[trigger] qualifies(s, i, j, s[i].separation.radius as int) {
        crate::query::lemma_no_neighbors_empty(s, i, s[i].separation.radius as int);
    }
    if forall|j: int|
        0 <= j < s.len() ==> !#[trigger] qualifies(s, i, j, s[i].alignment.radius as int) {
        crate::query::lemma_no_neighbors_empty(s, i, s[i].alignment.radius as int);
    }
    if forall|j: int|
        0 <= j < s.len() ==> !#[trigger] qualifies(s, i, j, s[i].cohesion.radius as int) {
        crate::query::lemma_no_neighbors_empty(s, i, s[i].cohesion.radius as int);
    }
}

} // verus!
