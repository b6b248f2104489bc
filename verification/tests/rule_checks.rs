//! The neighbor query and the three rule evaluators on concrete flocks.

use boids_rs::components::{
    AlignmentRule, Boid, BoidMovement, CohesionRule, SeparationRule, Vec2I,
};
use boids_rs::query::neighbors_of;
use boids_rs::rules::{
    alignment_velocity, cohesion_velocity, combine_rules, separation_velocity,
};
use boids_rs::SCALE;

fn plain_boid(id: usize, x: i64, y: i64, heading: i64, radius: i64) -> Boid {
    let zero = Vec2I { x: 0, y: 0 };
    Boid {
        position: Vec2I { x, y },
        heading,
        movement: BoidMovement { id, speed: 150_000, target_angle: 0, rotation_speed: 500_000 },
        separation: SeparationRule { id, radius, factor: SCALE, velocity: zero },
        alignment: AlignmentRule { id, radius, factor: SCALE, velocity: zero },
        cohesion: CohesionRule { id, radius, factor: SCALE, velocity: zero },
    }
}

#[test]
fn neighbor_query_inclusive_boundary() {
    let flock = vec![
        plain_boid(0, 0, 0, 0, 100_000),
        plain_boid(1, 100_000, 0, 0, 100_000),
        plain_boid(2, 100_001, 0, 0, 100_000),
    ];
    let ns = neighbors_of(&flock, 0, 100_000);
    // Exactly at the radius counts; one milli-unit beyond does not.
    assert_eq!(ns, vec![1]);
}

#[test]
fn neighbor_query_skips_self_by_id() {
    let flock = vec![plain_boid(0, 0, 0, 0, 100_000), plain_boid(1, 10, 0, 0, 100_000)];
    let ns = neighbors_of(&flock, 0, 100_000);
    assert_eq!(ns, vec![1]);
    let ns1 = neighbors_of(&flock, 1, 100_000);
    assert_eq!(ns1, vec![0]);
}

#[test]
fn neighbor_query_idempotent() {
    // Running the query twice against an unchanged snapshot yields
    // identical neighbor sets: the query has no side effects.
    let flock = vec![
        plain_boid(0, 0, 0, 0, 300_000),
        plain_boid(1, 150_000, 20_000, 0, 300_000),
        plain_boid(2, -90_000, 40_000, 0, 300_000),
        plain_boid(3, 900_000, 900_000, 0, 300_000),
    ];
    let first = neighbors_of(&flock, 0, 300_000);
    let second = neighbors_of(&flock, 0, 300_000);
    assert_eq!(first, second);
    assert_eq!(first, vec![1, 2]);
}

#[test]
fn rules_zero_for_isolated_agent() {
    // An agent with an empty neighbor set gets exactly zero from each rule.
    let flock = vec![
        plain_boid(0, 0, 0, 0, 100_000),
        plain_boid(1, 500_000, 500_000, 0, 100_000),
    ];
    let sep = separation_velocity(&flock, 0);
    let ali = alignment_velocity(&flock, 0);
    let coh = cohesion_velocity(&flock, 0);
    assert_eq!((sep.x, sep.y), (0, 0));
    assert_eq!((ali.x, ali.y), (0, 0));
    assert_eq!((coh.x, coh.y), (0, 0));
}

#[test]
fn separation_single_neighbor_exact() {
    let mut a = plain_boid(0, 0, 0, 0, 175_000);
    let mut b = plain_boid(1, 100_000, 0, 0, 175_000);
    a.separation.radius = 175_000;
    b.separation.radius = 175_000;
    let flock = vec![a, b];
    let v = separation_velocity(&flock, 0);
    // Unit vector (-1, 0), falloff (175 - 100) / 175, speed 150: exactly
    // -428_571 * 150_000 / SCALE = -64_285 after truncation.
    assert_eq!((v.x, v.y), (-64_285, 0));
}

#[test]
fn separation_falloff_is_monotone() {
    // Same direction, growing distance: the output magnitude never grows,
    // and at the radius boundary it is exactly zero.
    let distances: [i64; 4] = [50_000, 100_000, 150_000, 175_000];
    let expected: [i64; 4] = [-107_142, -64_285, -21_428, 0];
    let mut previous = i64::MAX;
    for (d, want) in distances.iter().zip(expected.iter()) {
        let flock = vec![plain_boid(0, 0, 0, 0, 175_000), plain_boid(1, *d, 0, 0, 175_000)];
        let v = separation_velocity(&flock, 0);
        assert_eq!((v.x, v.y), (*want, 0));
        assert!(v.x.abs() <= previous);
        previous = v.x.abs();
    }
}

#[test]
fn separation_guards_coincident_agents() {
    // Two agents on the same point: no direction exists, so the
    // contribution is zero rather than a corrupt value.
    let flock = vec![plain_boid(0, 7, 7, 0, 100_000), plain_boid(1, 7, 7, 0, 100_000)];
    let v = separation_velocity(&flock, 0);
    assert_eq!((v.x, v.y), (0, 0));
}

#[test]
fn triangle_alignment_matches_common_heading() {
    // Three agents on a near-equilateral triangle, identical headings and a
    // radius that sees both others: alignment equals the common heading's
    // unit vector, scaled by the full-strength factor.
    let h = 150_000;
    let flock = vec![
        plain_boid(0, 0, 0, h, 300_000),
        plain_boid(1, 200_000, 0, h, 300_000),
        plain_boid(2, 100_000, 173_205, h, 300_000),
    ];
    for i in 0..3 {
        let v = alignment_velocity(&flock, i);
        assert_eq!((v.x, v.y), (587_155, 807_692));
    }
}

#[test]
fn triangle_separation_points_outward() {
    // Same triangle: each agent's separation output is non-zero and points
    // away from the triangle's centroid.
    let flock = vec![
        plain_boid(0, 0, 0, 0, 300_000),
        plain_boid(1, 200_000, 0, 0, 300_000),
        plain_boid(2, 100_000, 173_205, 0, 300_000),
    ];
    let cx = (0 + 200_000 + 100_000) / 3;
    let cy = (0 + 0 + 173_205) / 3;
    for i in 0..3 {
        let v = separation_velocity(&flock, i);
        assert!(v.x != 0 || v.y != 0);
        let dot = v.x * (flock[i].position.x - cx) + v.y * (flock[i].position.y - cy);
        assert!(dot > 0);
    }
    let v0 = separation_velocity(&flock, 0);
    assert_eq!((v0.x, v0.y), (-37_499, -21_650));
}

#[test]
fn cohesion_pulls_toward_centroid() {
    let flock = vec![
        plain_boid(0, 0, 0, 0, 300_000),
        plain_boid(1, 200_000, 0, 0, 300_000),
        plain_boid(2, -200_000, 100_000, 0, 300_000),
    ];
    let v = cohesion_velocity(&flock, 0);
    // Centroid of the two neighbors is (0, 50_000): straight up.
    assert_eq!((v.x, v.y), (0, SCALE));
}

#[test]
fn cohesion_zero_on_own_centroid() {
    // The agent already stands on its neighbors' centroid: no direction,
    // output guarded to zero.
    let flock = vec![
        plain_boid(0, 0, 0, 0, 300_000),
        plain_boid(1, 100_000, 0, 0, 300_000),
        plain_boid(2, -100_000, 0, 0, 300_000),
    ];
    let v = cohesion_velocity(&flock, 0);
    assert_eq!((v.x, v.y), (0, 0));
}

#[test]
fn combiner_sets_angle_of_sum() {
    let east = Vec2I { x: 5_000, y: 0 };
    let zero = Vec2I { x: 0, y: 0 };
    // One active rule pointing east: target becomes 0 micro-turns.
    assert_eq!(combine_rules(east, zero, zero, 123_456), 0);
    // One active rule pointing north.
    let north = Vec2I { x: 0, y: 9 };
    assert_eq!(combine_rules(zero, north, zero, 123_456), 250_000);
}

#[test]
fn combiner_keeps_target_when_rules_cancel() {
    // Two exactly opposing vectors normalize to opposing unit vectors and
    // cancel: the previous target heading is kept, never corrupted.
    let east = Vec2I { x: 42, y: 0 };
    let west = Vec2I { x: -42_000, y: 0 };
    let zero = Vec2I { x: 0, y: 0 };
    assert_eq!(combine_rules(east, west, zero, 123_456), 123_456);
    // All three rules quiet: unchanged as well.
    assert_eq!(combine_rules(zero, zero, zero, 777_777), 777_777);
}

#[test]
fn combiner_output_is_valid_angle() {
    let probes: [(i64, i64); 5] =
        [(1, 1), (-1, 1), (-1, -1), (1, -1), (1_000_000_000, -1_000_000_000)];
    for &(x, y) in probes.iter() {
        let v = Vec2I { x, y };
        let zero = Vec2I { x: 0, y: 0 };
        let t = combine_rules(v, zero, zero, 0);
        assert!(0 <= t && t < boids_rs::TURN);
    }
}
