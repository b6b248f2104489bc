//! The kinematic integrator and the wrap boundary policy.
//!
//! Each tick an agent turns toward its target heading by at most
//! `rotation_speed * dt`, never past the target, then advances along its new
//! heading by `speed * dt`.  An agent that leaves the rectangular bounds is
//! teleported to the opposite edge on that axis, with its heading unchanged.

use vstd::prelude::*;

use crate::angle::{cos_fp, cos_uturn, sin_fp, sin_uturn};
use crate::components::{
    boid_valid, dt_valid, flock_valid, Boid, BoidMovement, Bounds, Vec2I,
};
use crate::math::{div_trunc, lemma_div_nonneg, lemma_sdiv_le, sdiv};
use crate::rules::{
    alignment_velocity, alignment_velocity_spec, cohesion_velocity, cohesion_velocity_spec,
    combine_rules, combine_target, separation_velocity, separation_velocity_spec,
};
use crate::{HALF_TURN, MILLIS_PER_SEC, POS_LIMIT, RATE_LIMIT, SCALE, SPEED_LIMIT, TURN};

verus! {

/// Counter-clockwise gap from `cur` to `target`, in `[0, TURN)`.
pub open spec fn fwd_gap(cur: int, target: int) -> int {
    if target >= cur {
        target - cur
    } else {
        target - cur + TURN
    }
}

/// Shortest angular distance between two headings, in `[0, HALF_TURN]`.
pub open spec fn angle_dist(cur: int, target: int) -> int {
    let f = fwd_gap(cur, target);
    if f <= HALF_TURN {
        f
    } else {
        TURN - f
    }
}

/// The largest rotation one tick allows, in micro-turns.
pub open spec fn turn_step(rate: int, dt_ms: int) -> int {
    rate * dt_ms / (MILLIS_PER_SEC as int)
}

/// One tick of bounded rotation: turn toward the target along the shorter
/// way, by the tick's angular budget but never past the target; an exact tie
/// between the two ways is resolved counter-clockwise.
pub open spec fn rotate_spec(cur: int, target: int, rate: int, dt_ms: int) -> int {
    let f = fwd_gap(cur, target);
    let step = turn_step(rate, dt_ms);
    if f == 0 {
        cur
    } else if f <= HALF_TURN {
        let d = if step < f {
            step
        } else {
            f
        };
        if cur + d >= TURN {
            cur + d - TURN
        } else {
            cur + d
        }
    } else {
        let g = TURN - f;
        let d = if step < g {
            step
        } else {
            g
        };
        if cur - d < 0 {
            cur - d + TURN
        } else {
            cur - d
        }
    }
}

/// One tick of rotation never overshoots: the remaining angular distance
/// after the tick is the old distance shortened by exactly the tick's budget,
/// and never negative — for every `dt` and every turn rate.
pub proof fn lemma_rotate_no_overshoot(cur: int, target: int, rate: int, dt_ms: int)
    requires
        0 <= cur < TURN,
        0 <= target < TURN,
        0 <= rate,
        0 <= dt_ms,
    ensures
        0 <= rotate_spec(cur, target, rate, dt_ms) < TURN,
        angle_dist(rotate_spec(cur, target, rate, dt_ms), target) == if turn_step(rate, dt_ms)
            < angle_dist(cur, target) {
            angle_dist(cur, target) - turn_step(rate, dt_ms)
        } else {
            0
        },
        angle_dist(rotate_spec(cur, target, rate, dt_ms), target) <= angle_dist(cur, target),
{
    assert(rate * dt_ms >= 0) by (nonlinear_arith)
        requires
            rate >= 0,
            dt_ms >= 0,
    {
    }
    lemma_div_nonneg(rate * dt_ms, MILLIS_PER_SEC as int);
}

/// The heading after `n` ticks of rotation toward a fixed target.
pub open spec fn rotate_iter(cur: int, target: int, rate: int, dt_ms: int, n: nat) -> int
    decreases n,
{
    if n == 0 {
        cur
    } else {
        rotate_spec(rotate_iter(cur, target, rate, dt_ms, (n - 1) as nat), target, rate, dt_ms)
    }
}

/// Held at a fixed target, the remaining angular distance after `n` ticks is
/// the initial distance less `n` tick budgets, floored at zero; the heading
/// stays a well-formed angle throughout.
pub proof fn lemma_rotate_iter_distance(cur: int, target: int, rate: int, dt_ms: int, n: nat)
    requires
        0 <= cur < TURN,
        0 <= target < TURN,
        0 <= rate,
        0 <= dt_ms,
    ensures
        0 <= rotate_iter(cur, target, rate, dt_ms, n) < TURN,
        angle_dist(rotate_iter(cur, target, rate, dt_ms, n), target) == if n * turn_step(
            rate,
            dt_ms,
        ) < angle_dist(cur, target) {
            angle_dist(cur, target) - n * turn_step(rate, dt_ms)
        } else {
            0
        },
    decreases n,
{
    let step = turn_step(rate, dt_ms);
    assert(rate * dt_ms >= 0) by (nonlinear_arith)
        requires
            rate >= 0,
            dt_ms >= 0,
    {
    }
    lemma_div_nonneg(rate * dt_ms, MILLIS_PER_SEC as int);
    if n == 0 {
        assert(n * step == 0) by (nonlinear_arith)
            requires
                n == 0,
        {
        }
    } else {
        lemma_rotate_iter_distance(cur, target, rate, dt_ms, (n - 1) as nat);
        let prev = rotate_iter(cur, target, rate, dt_ms, (n - 1) as nat);
        lemma_rotate_no_overshoot(prev, target, rate, dt_ms);
        assert(n * step == (n - 1) as nat * step + step) by (nonlinear_arith)
            requires
                n >= 1,
        {
        }
        assert((n - 1) as nat * step >= 0) by (nonlinear_arith)
            requires
                step >= 0,
                n >= 1,
        {
        }
    }
}

/// A heading at distance zero from the target equals the target.
pub proof fn lemma_zero_dist_is_aligned(cur: int, target: int)
    requires
        0 <= cur < TURN,
        0 <= target < TURN,
        angle_dist(cur, target) == 0,
    ensures
        cur == target,
{
}

/// With a positive angular budget per tick, a fixed target is reached after
/// exactly the ceiling of distance over budget ticks: that many ticks align
/// the heading with the target, and with a positive initial distance one tick
/// fewer does not.
pub proof fn lemma_rotation_tick_count(cur: int, target: int, rate: int, dt_ms: int)
    requires
        0 <= cur < TURN,
        0 <= target < TURN,
        0 <= rate,
        0 <= dt_ms,
        turn_step(rate, dt_ms) >= 1,
    ensures
        ({
            let dist = angle_dist(cur, target);
            let step = turn_step(rate, dt_ms);
            let ticks = ((dist + step - 1) / step) as nat;
            rotate_iter(cur, target, rate, dt_ms, ticks) == target && (dist > 0 ==> rotate_iter(
                cur,
                target,
                rate,
                dt_ms,
                (ticks - 1) as nat,
            ) != target)
        }),
{
    let dist = angle_dist(cur, target);
    let step = turn_step(rate, dt_ms);
    let ticks = ((dist + step - 1) / step) as nat;
    assert(dist >= 0);
    assert((dist + step - 1) / step >= 0 && ticks * step >= dist && (dist > 0 ==> (ticks - 1)
        * step < dist)) by (nonlinear_arith)
        requires
            step >= 1,
            dist >= 0,
            ticks == (dist + step - 1) / step,
    {
    }
    lemma_rotate_iter_distance(cur, target, rate, dt_ms, ticks);
    lemma_zero_dist_is_aligned(rotate_iter(cur, target, rate, dt_ms, ticks), target);
    if dist > 0 {
        lemma_rotate_iter_distance(cur, target, rate, dt_ms, (ticks - 1) as nat);
    }
}

/// Rotates `cur` toward `target` by at most `rate * dt`, never past it.
pub fn rotate_towards(cur: i64, target: i64, rate: i64, dt_ms: i64) -> (h: i64)
    requires
        0 <= cur < TURN,
        0 <= target < TURN,
        0 <= rate <= RATE_LIMIT,
        dt_valid(dt_ms as int),
    ensures
        h == rotate_spec(cur as int, target as int, rate as int, dt_ms as int),
        0 <= h < TURN,
        angle_dist(h as int, target as int) <= angle_dist(cur as int, target as int),
{
    proof {
        lemma_rotate_no_overshoot(cur as int, target as int, rate as int, dt_ms as int);
        assert(0 <= (rate as int) * (dt_ms as int) <= 60_000_000_000_000) by (nonlinear_arith)
            requires
                0 <= rate as int <= 1_000_000_000,
                0 <= dt_ms as int <= 60_000,
        {
        }
    }
    let step: i64 = rate * dt_ms / MILLIS_PER_SEC;
    let f: i64 = if target >= cur {
        target - cur
    } else {
        target - cur + TURN
    };
    if f == 0 {
        cur
    } else if f <= HALF_TURN {
        let d: i64 = if step < f {
            step
        } else {
            f
        };
        if cur + d >= TURN {
            cur + d - TURN
        } else {
            cur + d
        }
    } else {
        let g: i64 = TURN - f;
        let d: i64 = if step < g {
            step
        } else {
            g
        };
        if cur - d < 0 {
            cur - d + TURN
        } else {
            cur - d
        }
    }
}

/// The position change of one tick: `speed * dt` along the heading's unit
/// vector, in milli-units, rounded toward zero per component.
pub open spec fn displacement(heading: int, speed: int, dt_ms: int) -> (int, int) {
    let den = (MILLIS_PER_SEC as int) * (SCALE as int);
    (
        sdiv(speed * dt_ms * cos_uturn(heading), den),
        sdiv(speed * dt_ms * sin_uturn(heading), den),
    )
}

/// Advances a position along a heading by `speed * dt`.
pub fn advance_position(pos: Vec2I, heading: i64, speed: i64, dt_ms: i64) -> (p: Vec2I)
    requires
        -POS_LIMIT <= pos.x <= POS_LIMIT,
        -POS_LIMIT <= pos.y <= POS_LIMIT,
        0 <= heading < TURN,
        0 <= speed <= SPEED_LIMIT,
        dt_valid(dt_ms as int),
    ensures
        p.x == pos.x + displacement(heading as int, speed as int, dt_ms as int).0,
        p.y == pos.y + displacement(heading as int, speed as int, dt_ms as int).1,
        -1_600_000_000 <= p.x <= 1_600_000_000,
        -1_600_000_000 <= p.y <= 1_600_000_000,
{
    let c = cos_fp(heading);
    let s = sin_fp(heading);
    proof {
        assert(0 <= (speed as int) * (dt_ms as int) <= 600_000_000_000) by (nonlinear_arith)
            requires
                0 <= speed as int <= 10_000_000,
                0 <= dt_ms as int <= 60_000,
        {
        }
        assert(-600_000_000_000_000_000 <= (speed as int) * (dt_ms as int) * (c as int)
            <= 600_000_000_000_000_000 && -600_000_000_000_000_000 <= (speed as int) * (
        dt_ms as int) * (s as int) <= 600_000_000_000_000_000) by (nonlinear_arith)
            requires
                0 <= (speed as int) * (dt_ms as int) <= 600_000_000_000,
                -1_000_000 <= c as int <= 1_000_000,
                -1_000_000 <= s as int <= 1_000_000,
        {
        }
        lemma_sdiv_le((speed as int) * (dt_ms as int) * (c as int), 600_000_000, 1_000_000_000);
        lemma_sdiv_le((speed as int) * (dt_ms as int) * (s as int), 600_000_000, 1_000_000_000);
        assert((MILLIS_PER_SEC as int) * (SCALE as int) == 1_000_000_000) by (nonlinear_arith)
            requires
                MILLIS_PER_SEC as int == 1_000,
                SCALE as int == 1_000_000,
        {
        }
    }
    let den: i64 = MILLIS_PER_SEC * SCALE;
    let mx = div_trunc(speed * dt_ms * c, den);
    let my = div_trunc(speed * dt_ms * s, den);
    Vec2I { x: pos.x + mx, y: pos.y + my }
}

/// The wrap boundary policy on one axis: a coordinate past the high edge
/// teleports to the low edge and the other way around; anything inside the
/// bounds is untouched.
pub open spec fn wrap_coord(x: int, lo: int, hi: int) -> int {
    if x > hi {
        lo
    } else if x < lo {
        hi
    } else {
        x
    }
}

/// Applies the wrap boundary policy to both axes of a position.  Only the
/// position is read and produced: an agent's heading is untouched by
/// wrapping.
pub fn wrap_position(pos: Vec2I, bounds: &Bounds) -> (p: Vec2I)
    requires
        bounds.valid(),
    ensures
        p.x == wrap_coord(pos.x as int, bounds.left as int, bounds.right as int),
        p.y == wrap_coord(pos.y as int, bounds.bottom as int, bounds.top as int),
        bounds.holds_point(p),
{
    let x = if pos.x > bounds.right {
        bounds.left
    } else if pos.x < bounds.left {
        bounds.right
    } else {
        pos.x
    };
    let y = if pos.y > bounds.top {
        bounds.bottom
    } else if pos.y < bounds.bottom {
        bounds.top
    } else {
        pos.y
    };
    Vec2I { x, y }
}

/// How one simulation tick transforms agent `i` of snapshot `s` into `nb`:
/// the three rule vectors are evaluated against the snapshot, combined into a
/// target heading, the heading turns toward the target at the bounded rate,
/// the position advances along the new heading, and the wrap policy folds it
/// back into bounds; every other field is carried over unchanged.
pub open spec fn step_boid_rel(s: Seq<Boid>, i: int, dt_ms: int, bounds: Bounds, nb: Boid) -> bool {
    let b = s[i];
    let sep = separation_velocity_spec(s, i);
    let ali = alignment_velocity_spec(s, i);
    let coh = cohesion_velocity_spec(s, i);
    let moved = displacement(nb.heading as int, b.movement.speed as int, dt_ms);
    &&& nb.separation.velocity.x == sep.0 && nb.separation.velocity.y == sep.1
    &&& nb.alignment.velocity.x == ali.0 && nb.alignment.velocity.y == ali.1
    &&& nb.cohesion.velocity.x == coh.0 && nb.cohesion.velocity.y == coh.1
    &&& nb.movement.target_angle == combine_target(
        nb.separation.velocity,
        nb.alignment.velocity,
        nb.cohesion.velocity,
        b.movement.target_angle as int,
    )
    &&& nb.heading == rotate_spec(
        b.heading as int,
        nb.movement.target_angle as int,
        b.movement.rotation_speed as int,
        dt_ms,
    )
    &&& nb.position.x == wrap_coord(
        b.position.x + moved.0,
        bounds.left as int,
        bounds.right as int,
    )
    &&& nb.position.y == wrap_coord(
        b.position.y + moved.1,
        bounds.bottom as int,
        bounds.top as int,
    )
    &&& nb.movement.id == b.movement.id
    &&& nb.movement.speed == b.movement.speed
    &&& nb.movement.rotation_speed == b.movement.rotation_speed
    &&& nb.separation.id == b.separation.id
    &&& nb.separation.radius == b.separation.radius
    &&& nb.separation.factor == b.separation.factor
    &&& nb.alignment.id == b.alignment.id
    &&& nb.alignment.radius == b.alignment.radius
    &&& nb.alignment.factor == b.alignment.factor
    &&& nb.cohesion.id == b.cohesion.id
    &&& nb.cohesion.radius == b.cohesion.radius
    &&& nb.cohesion.factor == b.cohesion.factor
}

/// Runs one full simulation tick for agent `idx` against the snapshot
/// `boids`: rule evaluation, combining, bounded rotation, advancement and
/// the wrap boundary policy, in that order.
pub fn step_boid(boids: &Vec<Boid>, idx: usize, dt_ms: i64, bounds: &Bounds) -> (nb: Boid)
    requires
        flock_valid(boids@),
        idx < boids.len(),
        dt_valid(dt_ms as int),
        bounds.valid(),
    ensures
        step_boid_rel(boids@, idx as int, dt_ms as int, *bounds, nb),
        boid_valid(nb),
        bounds.holds_point(nb.position),
{
    let b = boids[idx];
    let sep = separation_velocity(boids, idx);
    let ali = alignment_velocity(boids, idx);
    let coh = cohesion_velocity(boids, idx);
    let target = combine_rules(sep, ali, coh, b.movement.target_angle);
    let heading = rotate_towards(b.heading, target, b.movement.rotation_speed, dt_ms);
    let moved = advance_position(b.position, heading, b.movement.speed, dt_ms);
    let position = wrap_position(moved, bounds);
    Boid {
        position,
        heading,
        movement: BoidMovement {
            id: b.movement.id,
            speed: b.movement.speed,
            target_angle: target,
            rotation_speed: b.movement.rotation_speed,
        },
        separation: crate::components::SeparationRule {
            id: b.separation.id,
            radius: b.separation.radius,
            factor: b.separation.factor,
            velocity: sep,
        },
        alignment: crate::components::AlignmentRule {
            id: b.alignment.id,
            radius: b.alignment.radius,
            factor: b.alignment.factor,
            velocity: ali,
        },
        cohesion: crate::components::CohesionRule {
            id: b.cohesion.id,
            radius: b.cohesion.radius,
            factor: b.cohesion.factor,
            velocity: coh,
        },
    }
}

/// Runs one simulation tick for the whole flock, double-buffered: every
/// agent is stepped against the same unchanged snapshot of the previous
/// tick's state, and a fresh next-state buffer is returned.
pub fn step_flock(boids: &Vec<Boid>, dt_ms: i64, bounds: &Bounds) -> (next: Vec<Boid>)
    requires
        flock_valid(boids@),
        dt_valid(dt_ms as int),
        bounds.valid(),
    ensures
        next.len() == boids.len(),
        forall|i: int|
            0 <= i < boids.len() ==> step_boid_rel(
                boids@,
                i,
                dt_ms as int,
                *bounds,
                #[trigger] next@[i],
            ),
        flock_valid(next@),
        forall|i: int| 0 <= i < boids.len() ==> bounds.holds_point(#[trigger] next@[i].position),
{
    let n = boids.len();
    let mut next: Vec<Boid> = Vec::new();
    let mut i: usize = 0;
    while i < n
        invariant
            flock_valid(boids@),
            dt_valid(dt_ms as int),
            bounds.valid(),
            n == boids.len(),
            i <= n,
            next.len() == i,
            forall|k: int|
                0 <= k < i ==> step_boid_rel(
                    boids@,
                    k,
                    dt_ms as int,
                    *bounds,
                    #[trigger] next@[k],
                ),
            forall|k: int| 0 <= k < i ==> boid_valid(#[trigger] next@[k]),
            forall|k: int| 0 <= k < i ==> bounds.holds_point(#[trigger] next@[k].position),
        decreases n - i,
    {
        let nb = step_boid(boids, i, dt_ms, bounds);
        next.push(nb);
        i = i + 1;
    }
    next
}

} // verus!
