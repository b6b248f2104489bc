//! The kinematic integrator, the wrap boundary, and whole-tick scenarios.

use boids_rs::components::{
    AlignmentRule, Boid, BoidMovement, Bounds, CohesionRule, SeparationRule, Vec2I,
};
use boids_rs::movement::{rotate_towards, step_boid, step_flock, wrap_position};
use boids_rs::{HALF_TURN, QUARTER_TURN, SCALE, TURN};

fn lone_boid(x: i64, y: i64, heading: i64, target: i64) -> Boid {
    let zero = Vec2I { x: 0, y: 0 };
    Boid {
        position: Vec2I { x, y },
        heading,
        movement: BoidMovement {
            id: 0,
            speed: 150_000,
            target_angle: target,
            rotation_speed: HALF_TURN,
        },
        separation: SeparationRule { id: 0, radius: 100_000, factor: SCALE, velocity: zero },
        alignment: AlignmentRule { id: 0, radius: 100_000, factor: SCALE, velocity: zero },
        cohesion: CohesionRule { id: 0, radius: 100_000, factor: SCALE, velocity: zero },
    }
}

fn wide_bounds() -> Bounds {
    Bounds { left: -1_000_000, right: 1_000_000, bottom: -900_000, top: 900_000 }
}

#[test]
fn rotation_partial_step() {
    // One turn per second, 50 ms: a step of 50_000 micro-turns.
    assert_eq!(rotate_towards(0, 100_000, 1_000_000, 50), 50_000);
}

#[test]
fn rotation_never_overshoots() {
    // The remaining distance is 30_000 but the budget is 50_000: the
    // heading stops exactly on the target.
    assert_eq!(rotate_towards(70_000, 100_000, 1_000_000, 50), 100_000);
    // An enormous budget still stops on the target.
    assert_eq!(rotate_towards(0, 499_999, 1_000_000_000, 60_000), 499_999);
}

#[test]
fn rotation_takes_shorter_way_across_zero() {
    // From 900_000 to 100_000 the short way is counter-clockwise across 0.
    assert_eq!(rotate_towards(900_000, 100_000, 1_000_000, 50), 950_000);
    let h = rotate_towards(950_000, 100_000, 1_000_000, 100);
    assert_eq!(h, 50_000);
    // From 100_000 back to 900_000 the short way is clockwise across 0.
    assert_eq!(rotate_towards(100_000, 900_000, 1_000_000, 50), 50_000);
    assert_eq!(rotate_towards(50_000, 900_000, 1_000_000, 100), 950_000);
}

#[test]
fn rotation_tick_count_matches_ceiling() {
    // Distance 100_000, step 30_000: ceil(100/30) = 4 ticks to align.
    let mut h: i64 = 0;
    let mut ticks = 0;
    while h != 100_000 {
        h = rotate_towards(h, 100_000, 600_000, 50);
        ticks += 1;
        assert!(ticks <= 4);
    }
    assert_eq!(ticks, 4);
}

#[test]
fn wrap_right_edge_reappears_left() {
    let b = wide_bounds();
    // One milli-unit past the right edge teleports to the left edge with
    // the y coordinate untouched.
    let p = wrap_position(Vec2I { x: 1_000_001, y: 123 }, &b);
    assert_eq!((p.x, p.y), (-1_000_000, 123));
    // And symmetrically on every other edge.
    let q = wrap_position(Vec2I { x: -1_000_001, y: -5 }, &b);
    assert_eq!((q.x, q.y), (1_000_000, -5));
    let r = wrap_position(Vec2I { x: 7, y: 900_001 }, &b);
    assert_eq!((r.x, r.y), (7, -900_000));
    let s = wrap_position(Vec2I { x: 7, y: -900_001 }, &b);
    assert_eq!((s.x, s.y), (7, 900_000));
}

#[test]
fn wrap_leaves_interior_alone() {
    let b = wide_bounds();
    let p = wrap_position(Vec2I { x: 1_000_000, y: -900_000 }, &b);
    assert_eq!((p.x, p.y), (1_000_000, -900_000));
}

#[test]
fn step_wraps_position_and_keeps_heading() {
    // An agent on the right edge, heading east: after one tick it
    // reappears at the left edge, heading unchanged.
    let flock = vec![lone_boid(999_999, 50_000, 0, 0)];
    let b = wide_bounds();
    let next = step_boid(&flock, 0, 100, &b);
    // speed 150 units/s for 0.1 s: 15_000 milli-units east, past the edge.
    assert_eq!(next.position.x, -1_000_000);
    assert_eq!(next.position.y, 50_000);
    assert_eq!(next.heading, 0);
}

#[test]
fn lone_agent_turns_quarter_and_advances_on_new_heading() {
    // A single agent with no neighbors: target a quarter turn away, a turn
    // rate of half a turn per second and a 500 ms tick.  The heading
    // rotates exactly the quarter turn (fully aligned in one tick), and the
    // position advances by speed * dt along the *new* heading.
    let flock = vec![lone_boid(0, 0, 0, QUARTER_TURN)];
    let b = wide_bounds();
    let next = step_boid(&flock, 0, 500, &b);
    assert_eq!(next.heading, QUARTER_TURN);
    // All rule vectors are zero, so the combiner left the target alone.
    assert_eq!(next.movement.target_angle, QUARTER_TURN);
    // 150 units/s for 0.5 s = 75 units, straight up the new heading.
    assert_eq!((next.position.x, next.position.y), (0, 75_000));
    // The rule outputs of the isolated agent are exactly zero.
    assert_eq!((next.separation.velocity.x, next.separation.velocity.y), (0, 0));
    assert_eq!((next.alignment.velocity.x, next.alignment.velocity.y), (0, 0));
    assert_eq!((next.cohesion.velocity.x, next.cohesion.velocity.y), (0, 0));
}

#[test]
fn step_flock_is_deterministic_and_preserves_population() {
    let flock = vec![
        lone_boid(0, 0, 0, QUARTER_TURN),
        {
            let mut b = lone_boid(50_000, 0, HALF_TURN, 0);
            b.movement.id = 1;
            b.separation.id = 1;
            b.alignment.id = 1;
            b.cohesion.id = 1;
            b
        },
    ];
    let b = wide_bounds();
    let once = step_flock(&flock, 16, &b);
    let again = step_flock(&flock, 16, &b);
    assert_eq!(once.len(), 2);
    assert_eq!(once, again);
    for nb in once.iter() {
        assert!(0 <= nb.heading && nb.heading < TURN);
        assert!(b.left <= nb.position.x && nb.position.x <= b.right);
        assert!(b.bottom <= nb.position.y && nb.position.y <= b.top);
    }
}

#[test]
fn step_flock_reads_one_snapshot() {
    // Double buffering: agent 1's update is computed against agent 0's
    // previous position even though agent 0 moves in the same tick.
    let mut a = lone_boid(0, 0, 0, 0);
    a.separation.radius = 300_000;
    let mut c = lone_boid(100_000, 0, 0, 0);
    c.movement.id = 1;
    c.separation.id = 1;
    c.alignment.id = 1;
    c.cohesion.id = 1;
    c.separation.radius = 300_000;
    let flock = vec![a, c];
    let b = wide_bounds();
    let next = step_flock(&flock, 100, &b);
    // Both see the other at distance 100_000 in the old snapshot, so the
    // separation outputs are exact mirror images.
    assert_eq!(next[0].separation.velocity.x, -next[1].separation.velocity.x);
    assert_eq!(next[0].separation.velocity.y, next[1].separation.velocity.y);
    assert!(next[0].separation.velocity.x != 0);
}
