//! Configuration validation, the spawn grid, and the component builders.

use boids_rs::components::{
    AlignmentRule, BoidMovement, Bounds, CohesionRule, Configuration, RectFrame, SeparationRule,
    Vec2I, Wall,
};
use boids_rs::startup::{
    grid_row_col, spawn_flock, tile_window, wall_frame, ConfigError, FlockConfig,
};
use boids_rs::{
    BOID_COUNT, INITIAL_WINDOW_HEIGHT, INITIAL_WINDOW_WIDTH, SCALE, TURN, WALL_THICKNESS,
};

fn good_config() -> FlockConfig {
    FlockConfig {
        count: BOID_COUNT,
        width: INITIAL_WINDOW_WIDTH,
        height: INITIAL_WINDOW_HEIGHT,
        separation_radius: 175_000,
        separation_factor: SCALE,
        alignment_radius: 100_000,
        alignment_factor: SCALE,
        cohesion_radius: 200_000,
        cohesion_factor: SCALE,
        speed: 150_000,
        rotation_speed: 500_000,
    }
}

#[test]
fn good_configuration_passes() {
    assert_eq!(good_config().validate(), Ok(()));
}

#[test]
fn population_over_capacity_rejected() {
    let mut c = good_config();
    c.count = 10_001;
    assert_eq!(c.validate(), Err(ConfigError::PopulationTooLarge));
}

#[test]
fn empty_window_rejected() {
    let mut c = good_config();
    c.width = 0;
    assert_eq!(c.validate(), Err(ConfigError::BadWindow));
}

#[test]
fn zero_radius_rejected() {
    // A zero radius would make the falloff division degenerate, so setup
    // rejects it rather than clamping.
    let mut c = good_config();
    c.separation_radius = 0;
    assert_eq!(c.validate(), Err(ConfigError::BadRadius));
    let mut c2 = good_config();
    c2.cohesion_radius = -5;
    assert_eq!(c2.validate(), Err(ConfigError::BadRadius));
}

#[test]
fn negative_factor_rejected() {
    let mut c = good_config();
    c.alignment_factor = -1;
    assert_eq!(c.validate(), Err(ConfigError::BadFactor));
}

#[test]
fn out_of_range_speed_rejected() {
    let mut c = good_config();
    c.speed = -1;
    assert_eq!(c.validate(), Err(ConfigError::BadSpeed));
}

#[test]
fn out_of_range_turn_rate_rejected() {
    let mut c = good_config();
    c.rotation_speed = 1_000_000_001;
    assert_eq!(c.validate(), Err(ConfigError::BadTurnRate));
}

#[test]
fn grid_side_is_ceiling_square_root() {
    assert_eq!(grid_row_col(0), 2);
    assert_eq!(grid_row_col(1), 2);
    assert_eq!(grid_row_col(4), 2);
    assert_eq!(grid_row_col(5), 3);
    assert_eq!(grid_row_col(16), 4);
    assert_eq!(grid_row_col(17), 5);
    assert_eq!(grid_row_col(25), 5);
    assert_eq!(grid_row_col(128), 12);
}

#[test]
fn tile_window_covers_population() {
    let grids = tile_window(128);
    assert_eq!(grids.len(), 144);
    // 12 x 12 grid over the default window, row-major.
    let w = INITIAL_WINDOW_WIDTH / 12;
    let h = INITIAL_WINDOW_HEIGHT / 12;
    assert_eq!(grids[0].x, -INITIAL_WINDOW_WIDTH / 2 + w / 2);
    assert_eq!(grids[0].y, -INITIAL_WINDOW_HEIGHT / 2 + h / 2);
    assert_eq!(grids[0].width, w);
    assert_eq!(grids[0].height, h);
    // Second entry advances one column (the y axis), not one row.
    assert_eq!(grids[1].x, grids[0].x);
    assert_eq!(grids[1].y, grids[0].y + h);
    // Entry 12 starts the second row.
    assert_eq!(grids[12].x, grids[0].x + w);
    assert_eq!(grids[12].y, grids[0].y);
}

#[test]
fn tile_window_four_tiles_exact() {
    // Four agents: a 2 x 2 grid, exactly four frames of half the window
    // each, centers in row-major order.
    let grids = tile_window(4);
    assert_eq!(grids.len(), 4);
    let centers: Vec<(i64, i64)> = grids.iter().map(|g| (g.x, g.y)).collect();
    assert_eq!(
        centers,
        vec![(-640_000, -450_000), (-640_000, 450_000), (640_000, -450_000), (640_000, 450_000)]
    );
    for g in grids.iter() {
        assert_eq!((g.width, g.height), (1_280_000, 900_000));
    }
}

#[test]
fn spawn_positions_are_distinct() {
    // Tiled placement is non-overlapping: no two agents share a position.
    let flock = spawn_flock(&good_config()).unwrap();
    for i in 0..flock.len() {
        for j in (i + 1)..flock.len() {
            assert!(
                flock[i].position.x != flock[j].position.x
                    || flock[i].position.y != flock[j].position.y
            );
        }
    }
}

#[test]
fn spawn_places_one_agent_per_tile() {
    let config = good_config();
    let flock = spawn_flock(&config).unwrap();
    let grids = tile_window(config.count as u32);
    assert_eq!(flock.len(), BOID_COUNT);
    for (i, b) in flock.iter().enumerate() {
        assert_eq!(b.movement.id, i);
        assert_eq!(b.separation.id, i);
        assert_eq!(b.alignment.id, i);
        assert_eq!(b.cohesion.id, i);
        assert_eq!(b.position.x, grids[i].x);
        assert_eq!(b.position.y, grids[i].y);
        assert_eq!(b.movement.speed, config.speed);
        assert_eq!(b.movement.rotation_speed, config.rotation_speed);
        assert_eq!(b.separation.radius, config.separation_radius);
        assert_eq!(b.alignment.radius, config.alignment_radius);
        assert_eq!(b.cohesion.radius, config.cohesion_radius);
        assert_eq!((b.separation.velocity.x, b.separation.velocity.y), (0, 0));
        // A random heading is still a well-formed angle, strictly below a
        // full turn.
        assert!(0 <= b.heading && b.heading < TURN);
        assert!(0 <= b.movement.target_angle && b.movement.target_angle < TURN);
    }
}

#[test]
fn spawn_rejects_what_validation_rejects() {
    let mut c = good_config();
    c.speed = -3;
    assert_eq!(spawn_flock(&c).unwrap_err(), ConfigError::BadSpeed);
}

#[test]
fn wall_frames_line_the_window_edges() {
    let w = INITIAL_WINDOW_WIDTH;
    let h = INITIAL_WINDOW_HEIGHT;
    let top = wall_frame(Wall::Top, w, h);
    assert_eq!((top.x, top.y), (0, (h - WALL_THICKNESS) / 2));
    assert_eq!((top.width, top.height), (w, WALL_THICKNESS));
    let left = wall_frame(Wall::Left, w, h);
    assert_eq!((left.x, left.y), ((-w + WALL_THICKNESS) / 2, 0));
    assert_eq!((left.width, left.height), (WALL_THICKNESS, h));
    let bottom = wall_frame(Wall::Bottom, w, h);
    assert_eq!((bottom.x, bottom.y), (0, (-h + WALL_THICKNESS) / 2));
    let right = wall_frame(Wall::Right, w, h);
    assert_eq!((right.x, right.y), ((w - WALL_THICKNESS) / 2, 0));
}

#[test]
fn component_builders_keep_fields() {
    let v = Vec2I::new(3, -4);
    assert_eq!((v.x, v.y), (3, -4));
    let z = Vec2I::zero();
    assert_eq!((z.x, z.y), (0, 0));
    let f = RectFrame::new(1, 2, 30, 40);
    let p = f.pos();
    let s = f.size();
    assert_eq!((p.x, p.y), (1, 2));
    assert_eq!((s.x, s.y), (30, 40));
    let b = Bounds::from_window(200, 100);
    assert_eq!((b.left, b.right, b.bottom, b.top), (-100, 100, -50, 50));
    let c = Configuration::default();
    assert!(!c.movement_debug && !c.flock_debug && !c.volume_debug && !c.ray_debug);
    let sep = SeparationRule::new(1, 100, 200, v);
    assert_eq!((sep.id, sep.radius, sep.factor, sep.velocity.x), (1, 100, 200, 3));
    let ali = AlignmentRule::new(2, 300, 400, v);
    assert_eq!((ali.id, ali.radius, ali.factor, ali.velocity.y), (2, 300, 400, -4));
    let coh = CohesionRule::new(3, 500, 600, z);
    assert_eq!((coh.id, coh.radius, coh.factor, coh.velocity.x), (3, 500, 600, 0));
    let m = BoidMovement::new(4, 700, 800, 900);
    assert_eq!((m.id, m.speed, m.target_angle, m.rotation_speed), (4, 700, 800, 900));
}
