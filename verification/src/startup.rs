//! Flock setup: configuration validation, the tiled spawn grid, and the
//! initial population with randomized headings.
//!
//! Setup rejects a bad configuration instead of clamping it: a zero or
//! negative radius, an out-of-range factor, speed or turn rate, a degenerate
//! window or an oversized population each return a distinct error.  Agents
//! spawn on a square grid of non-overlapping tiles, one agent per tile, with
//! uniformly random initial and target headings.

use vstd::prelude::*;

use crate::components::{
    boid_valid, flock_valid, rule_params_valid, AlignmentRule, Boid, BoidMovement, CohesionRule,
    RectFrame, SeparationRule, Vec2I, Wall,
};
use crate::math::{div_trunc, isqrt, lemma_sqrt_floor_bounds, sdiv};
use crate::{
    INITIAL_WINDOW_HEIGHT, INITIAL_WINDOW_WIDTH, POP_LIMIT, POS_LIMIT, RATE_LIMIT, SPEED_LIMIT,
    TURN, WALL_THICKNESS,
};

verus! {

/// The setup-time configuration surface of the core.
#[derive(Clone, Copy, PartialEq, Eq, Structural, Debug)]
pub struct FlockConfig {
    /// Population size.
    pub count: usize,
    /// World width, in milli-units.
    pub width: i64,
    /// World height, in milli-units.
    pub height: i64,
    pub separation_radius: i64,
    pub separation_factor: i64,
    pub alignment_radius: i64,
    pub alignment_factor: i64,
    pub cohesion_radius: i64,
    pub cohesion_factor: i64,
    /// Forward speed, in milli-units per second.
    pub speed: i64,
    /// Largest angular rate, in micro-turns per second.
    pub rotation_speed: i64,
}

/// Why a configuration was rejected at setup.
#[derive(Clone, Copy, PartialEq, Eq, Structural, Debug)]
pub enum ConfigError {
    /// The population exceeds the supported capacity.
    PopulationTooLarge,
    /// The window is empty or wider than the world's coordinate limit.
    BadWindow,
    /// A rule radius is zero, negative, or over the limit.
    BadRadius,
    /// A rule weight factor is negative or over the limit.
    BadFactor,
    /// The speed is negative or over the limit.
    BadSpeed,
    /// The turn rate is negative or over the limit.
    BadTurnRate,
}

/// A configuration the core accepts.
pub open spec fn config_valid(c: FlockConfig) -> bool {
    &&& c.count <= POP_LIMIT
    &&& 0 < c.width <= 2 * POS_LIMIT
    &&& 0 < c.height <= 2 * POS_LIMIT
    &&& rule_params_valid(c.separation_radius as int, c.separation_factor as int)
    &&& rule_params_valid(c.alignment_radius as int, c.alignment_factor as int)
    &&& rule_params_valid(c.cohesion_radius as int, c.cohesion_factor as int)
    &&& 0 <= c.speed <= SPEED_LIMIT
    &&& 0 <= c.rotation_speed <= RATE_LIMIT
}

impl FlockConfig {
    /// The window is non-empty and within the world's coordinate limit.
    pub open spec fn window_ok(self) -> bool {
        0 < self.width <= 2 * POS_LIMIT && 0 < self.height <= 2 * POS_LIMIT
    }

    /// All three rule radii are positive and within the limit.
    pub open spec fn radii_ok(self) -> bool {
        &&& 1 <= self.separation_radius <= crate::RADIUS_LIMIT
        &&& 1 <= self.alignment_radius <= crate::RADIUS_LIMIT
        &&& 1 <= self.cohesion_radius <= crate::RADIUS_LIMIT
    }

    /// All three rule factors are non-negative and within the limit.
    pub open spec fn factors_ok(self) -> bool {
        &&& 0 <= self.separation_factor <= crate::FACTOR_LIMIT
        &&& 0 <= self.alignment_factor <= crate::FACTOR_LIMIT
        &&& 0 <= self.cohesion_factor <= crate::FACTOR_LIMIT
    }

    /// Checks every configured value against its limit; accepts exactly the
    /// configurations [`config_valid`] admits, and reports the first bad
    /// value in the order population, window, radii, factors, speed, rate.
    pub fn validate(&self) -> (r: Result<(), ConfigError>)
        ensures
            r is Ok <==> config_valid(*self),
            r == Result::<(), ConfigError>::Err(ConfigError::PopulationTooLarge) <==> self.count
                > POP_LIMIT,
            r == Result::<(), ConfigError>::Err(ConfigError::BadWindow) <==> self.count
                <= POP_LIMIT && !self.window_ok(),
            r == Result::<(), ConfigError>::Err(ConfigError::BadRadius) <==> self.count
                <= POP_LIMIT && self.window_ok() && !self.radii_ok(),
            r == Result::<(), ConfigError>::Err(ConfigError::BadFactor) <==> self.count
                <= POP_LIMIT && self.window_ok() && self.radii_ok() && !self.factors_ok(),
            r == Result::<(), ConfigError>::Err(ConfigError::BadSpeed) <==> self.count
                <= POP_LIMIT && self.window_ok() && self.radii_ok() && self.factors_ok() && !(0
                <= self.speed <= SPEED_LIMIT),
            r == Result::<(), ConfigError>::Err(ConfigError::BadTurnRate) <==> self.count
                <= POP_LIMIT && self.window_ok() && self.radii_ok() && self.factors_ok() && 0
                <= self.speed <= SPEED_LIMIT && !(0 <= self.rotation_speed <= RATE_LIMIT),
    {
        if self.count > POP_LIMIT {
            Err(ConfigError::PopulationTooLarge)
        } else if !(0 < self.width && self.width <= 2 * POS_LIMIT && 0 < self.height
            && self.height <= 2 * POS_LIMIT) {
            Err(ConfigError::BadWindow)
        } else if !(1 <= self.separation_radius && self.separation_radius <= crate::RADIUS_LIMIT
            && 1 <= self.alignment_radius && self.alignment_radius <= crate::RADIUS_LIMIT && 1
            <= self.cohesion_radius && self.cohesion_radius <= crate::RADIUS_LIMIT) {
            Err(ConfigError::BadRadius)
        } else if !(0 <= self.separation_factor && self.separation_factor <= crate::FACTOR_LIMIT
            && 0 <= self.alignment_factor && self.alignment_factor <= crate::FACTOR_LIMIT && 0
            <= self.cohesion_factor && self.cohesion_factor <= crate::FACTOR_LIMIT) {
            Err(ConfigError::BadFactor)
        } else if !(0 <= self.speed && self.speed <= SPEED_LIMIT) {
            Err(ConfigError::BadSpeed)
        } else if !(0 <= self.rotation_speed && self.rotation_speed <= RATE_LIMIT) {
            Err(ConfigError::BadTurnRate)
        } else {
            Ok(())
        }
    }
}

/// The side of the smallest square grid that holds `x` tiles, clamped below
/// at 2: the ceiling of the square root of `x`, or 2 if that is smaller.
pub open spec fn grid_side(x: int) -> int
    recommends
        x >= 0,
{
    let s = crate::math::sqrt_floor(x);
    let side = if s * s == x {
        s
    } else {
        s + 1
    };
    if side < 2 {
        2
    } else {
        side
    }
}

/// The side of the smallest square grid that holds `x` tiles, at least 2:
/// exactly [`grid_side`] of `x`.
pub fn grid_row_col(x: u32) -> (r: u32)
    ensures
        r == grid_side(x as int),
        2 <= r <= 65_536,
        x <= r * r,
        r > 2 ==> (r - 1) * (r - 1) < x,
{
    let s64 = isqrt(x as u64);
    proof {
        lemma_sqrt_floor_bounds(x as int);
        assert(s64 as int <= 65_535) by {
            if s64 as int > 65_535 {
                assert(65_536 * 65_536 <= (s64 as int) * (s64 as int)) by (nonlinear_arith)
                    requires
                        65_536 <= s64 as int,
                {
                }
            }
        }
    }
    let s = s64 as u32;
    let side = if s * s == x {
        s
    } else {
        s + 1
    };
    proof {
        let si = side as int;
        let xi = x as int;
        let ss = s as int;
        if ss * ss == xi {
            if side > 2 {
                assert((si - 1) * (si - 1) < ss * ss) by (nonlinear_arith)
                    requires
                        si == ss,
                        ss >= 3,
                {
                }
            }
        } else {
            assert((si - 1) * (si - 1) == ss * ss);
        }
        assert(xi <= si * si);
        if si < 2 {
            assert(xi <= 2 * 2) by (nonlinear_arith)
                requires
                    xi <= si * si,
                    0 <= si < 2,
            {
            }
        }
    }
    if side < 2 {
        2
    } else {
        side
    }
}

/// The spawn tile at grid cell `(row, col)` of a `side` by `side` grid over
/// the default window: its center coordinate on one axis, given that axis's
/// window extent.
pub open spec fn tile_center(extent: int, side: int, cell: int) -> int {
    let tile = extent / side;
    cell * tile - sdiv(extent, 2) + sdiv(tile, 2)
}

/// Splits the default window into the smallest square grid of equal tiles
/// that can hold `count` agents, row-major: exactly `grid_side(count)`
/// squared frames, one per tile, centered in the tile.
pub fn tile_window(count: u32) -> (grids: Vec<RectFrame>)
    requires
        count <= POP_LIMIT,
    ensures
        grids@.len() == grid_side(count as int) * grid_side(count as int),
        count <= grids.len(),
        grids.len() <= 10_201,
        forall|k: int|
            0 <= k < grids@.len() ==> {
                let side = grid_side(count as int);
                #[trigger] grids@[k] == (RectFrame {
                    x: tile_center(INITIAL_WINDOW_WIDTH as int, side, k / side) as i64,
                    y: tile_center(INITIAL_WINDOW_HEIGHT as int, side, k % side) as i64,
                    width: (INITIAL_WINDOW_WIDTH as int / side) as i64,
                    height: (INITIAL_WINDOW_HEIGHT as int / side) as i64,
                })
            },
        forall|k: int|
            0 <= k < grids@.len() ==> -POS_LIMIT <= #[trigger] grids@[k].x <= POS_LIMIT
                && -POS_LIMIT <= grids@[k].y <= POS_LIMIT,
{
    let side = grid_row_col(count);
    proof {
        assert(side as int <= 101) by {
            if side as int > 101 {
                assert(101 * 101 <= (side as int - 1) * (side as int - 1)) by (nonlinear_arith)
                    requires
                        102 <= side as int,
                {
                }
            }
        }
        assert((side as int) * (side as int) <= 10_201) by (nonlinear_arith)
            requires
                side as int <= 101,
                side as int >= 0,
        {
        }
    }
    let width: i64 = INITIAL_WINDOW_WIDTH / (side as i64);
    let height: i64 = INITIAL_WINDOW_HEIGHT / (side as i64);
    proof {
        assert(0 <= width as int * (side as int) <= INITIAL_WINDOW_WIDTH as int && 0 <= height
            as int * (side as int) <= INITIAL_WINDOW_HEIGHT as int) by (nonlinear_arith)
            requires
                2 <= side as int <= 101,
                width as int == INITIAL_WINDOW_WIDTH as int / (side as int),
                height as int == INITIAL_WINDOW_HEIGHT as int / (side as int),
                INITIAL_WINDOW_WIDTH as int == 2_560_000,
                INITIAL_WINDOW_HEIGHT as int == 1_800_000,
        {
        }
    }
    let mut grids: Vec<RectFrame> = Vec::new();
    let mut r: u32 = 0;
    while r < side
        invariant
            2 <= side <= 101,
            side as int == grid_side(count as int),
            width == INITIAL_WINDOW_WIDTH as int / (side as int),
            height == INITIAL_WINDOW_HEIGHT as int / (side as int),
            0 <= width as int * (side as int) <= INITIAL_WINDOW_WIDTH as int,
            0 <= height as int * (side as int) <= INITIAL_WINDOW_HEIGHT as int,
            r <= side,
            grids@.len() == r as int * side as int,
            forall|k: int|
                0 <= k < grids@.len() ==> #[trigger] grids@[k] == (RectFrame {
                    x: tile_center(INITIAL_WINDOW_WIDTH as int, side as int, k / side as int)
                        as i64,
                    y: tile_center(INITIAL_WINDOW_HEIGHT as int, side as int, k % side as int)
                        as i64,
                    width,
                    height,
                }),
            forall|k: int|
                0 <= k < grids@.len() ==> -POS_LIMIT <= #[trigger] grids@[k].x <= POS_LIMIT
                    && -POS_LIMIT <= grids@[k].y <= POS_LIMIT,
        decreases side - r,
    {
        let mut c: u32 = 0;
        proof {
            assert((r as int + 1) * (side as int) == r as int * side as int + side as int
                && r as int * side as int + side as int <= 10_201) by (nonlinear_arith)
                requires
                    0 <= r as int,
                    (r as int) < side as int,
                    side as int <= 101,
            {
            }
        }
        while c < side
            invariant
                2 <= side <= 101,
                side as int == grid_side(count as int),
                width == INITIAL_WINDOW_WIDTH as int / (side as int),
                height == INITIAL_WINDOW_HEIGHT as int / (side as int),
                0 <= width as int * (side as int) <= INITIAL_WINDOW_WIDTH as int,
                0 <= height as int * (side as int) <= INITIAL_WINDOW_HEIGHT as int,
                r < side,
                c <= side,
                grids@.len() == r as int * side as int + c as int,
                r as int * side as int + side as int <= 10_201,
                forall|k: int|
                    0 <= k < grids@.len() ==> #[trigger] grids@[k] == (RectFrame {
                        x: tile_center(INITIAL_WINDOW_WIDTH as int, side as int, k / side as int)
                            as i64,
                        y: tile_center(INITIAL_WINDOW_HEIGHT as int, side as int, k % side as int)
                            as i64,
                        width,
                        height,
                    }),
                forall|k: int|
                    0 <= k < grids@.len() ==> -POS_LIMIT <= #[trigger] grids@[k].x <= POS_LIMIT
                        && -POS_LIMIT <= grids@[k].y <= POS_LIMIT,
            decreases side - c,
        {
            proof {
                let k = grids@.len() as int;
                assert(k / side as int == r as int && k % side as int == c as int)
                    by (nonlinear_arith)
                    requires
                        k == r as int * side as int + c as int,
                        0 <= c as int && (c as int) < side as int,
                        0 <= r as int,
                {
                }
                assert(0 <= r as int * width as int <= INITIAL_WINDOW_WIDTH as int && 0 <= c as int
                    * height as int <= INITIAL_WINDOW_HEIGHT as int) by (nonlinear_arith)
                    requires
                        0 <= (r as int) < side as int,
                        0 <= c as int && (c as int) < side as int,
                        0 <= width as int,
                        0 <= height as int,
                        0 <= width as int * (side as int) <= INITIAL_WINDOW_WIDTH as int,
                        0 <= height as int * (side as int) <= INITIAL_WINDOW_HEIGHT as int,
                {
                }
            }
            let x: i64 = (r as i64) * width - INITIAL_WINDOW_WIDTH / 2 + width / 2;
            let y: i64 = (c as i64) * height - INITIAL_WINDOW_HEIGHT / 2 + height / 2;
            grids.push(RectFrame { x, y, width, height });
            c = c + 1;
        }
        r = r + 1;
    }
    grids
}

/// Relies on fastrand::u32: a uniformly random integer drawn from the given
/// half-open range, so the result is always below the bound.
#[verifier::external_body]
fn random_below(n: u32) -> (r: u32)
    requires
        n > 0,
    ensures
        r < n,
{
    fastrand::u32(0..n)
}

/// Builds the initial flock: validates the configuration, then places one
/// agent per spawn tile in row-major order with the configured rule
/// parameters, a random initial heading and a random target heading.
/// Fails exactly on the configurations [`FlockConfig::validate`] rejects.
pub fn spawn_flock(config: &FlockConfig) -> (r: Result<Vec<Boid>, ConfigError>)
    ensures
        r is Ok <==> config_valid(*config),
        r is Ok ==> {
            let flock = r->Ok_0;
            let side = grid_side(config.count as int);
            &&& flock.len() == config.count
            &&& flock_valid(flock@)
            &&& forall|i: int|
                0 <= i < flock@.len() ==> {
                    let b = #[trigger] flock@[i];
                    &&& b.position.x == tile_center(INITIAL_WINDOW_WIDTH as int, side, i / side)
                        as i64
                    &&& b.position.y == tile_center(
                        INITIAL_WINDOW_HEIGHT as int,
                        side,
                        i % side,
                    ) as i64
                    &&& b.movement.id == i
                    &&& b.movement.speed == config.speed
                    &&& b.movement.rotation_speed == config.rotation_speed
                    &&& b.separation.radius == config.separation_radius
                    &&& b.separation.factor == config.separation_factor
                    &&& b.alignment.radius == config.alignment_radius
                    &&& b.alignment.factor == config.alignment_factor
                    &&& b.cohesion.radius == config.cohesion_radius
                    &&& b.cohesion.factor == config.cohesion_factor
                    &&& b.separation.velocity.is_zero()
                    &&& b.alignment.velocity.is_zero()
                    &&& b.cohesion.velocity.is_zero()
                    &&& 0 <= b.heading < TURN
                    &&& 0 <= b.movement.target_angle < TURN
                }
        },
{
    match config.validate() {
        Err(e) => Err(e),
        Ok(()) => {
            let grids = tile_window(config.count as u32);
            proof {
                assert((config.count as u32) as int == config.count as int);
                let side = grid_side(config.count as int);
                assert forall|k: int| 0 <= k < grids@.len() implies #[trigger] grids@[k].x
                    == tile_center(INITIAL_WINDOW_WIDTH as int, side, k / side) as i64
                    && grids@[k].y == tile_center(INITIAL_WINDOW_HEIGHT as int, side, k % side)
                    as i64 by {
                    assert(grids@[k] == (RectFrame {
                        x: tile_center(INITIAL_WINDOW_WIDTH as int, side, k / side) as i64,
                        y: tile_center(INITIAL_WINDOW_HEIGHT as int, side, k % side) as i64,
                        width: (INITIAL_WINDOW_WIDTH as int / side) as i64,
                        height: (INITIAL_WINDOW_HEIGHT as int / side) as i64,
                    }));
                }
            }
            let mut flock: Vec<Boid> = Vec::new();
            let mut i: usize = 0;
            while i < config.count
                invariant
                    config_valid(*config),
                    i <= config.count,
                    config.count <= grids.len(),
                    flock.len() == i,
                    forall|k: int|
                        0 <= k < grids@.len() ==> -POS_LIMIT <= #[trigger] grids@[k].x <= POS_LIMIT
                            && -POS_LIMIT <= grids@[k].y <= POS_LIMIT,
                    forall|k: int|
                        0 <= k < grids@.len() ==> {
                            let side = grid_side(config.count as int);
                            #[trigger] grids@[k].x == tile_center(
                                INITIAL_WINDOW_WIDTH as int,
                                side,
                                k / side,
                            ) as i64 && grids@[k].y == tile_center(
                                INITIAL_WINDOW_HEIGHT as int,
                                side,
                                k % side,
                            ) as i64
                        },
                    forall|k: int| 0 <= k < i ==> boid_valid(#[trigger] flock@[k]),
                    forall|k: int|
                        0 <= k < i ==> {
                            let b = #[trigger] flock@[k];
                            let side = grid_side(config.count as int);
                            &&& b.position.x == tile_center(
                                INITIAL_WINDOW_WIDTH as int,
                                side,
                                k / side,
                            ) as i64
                            &&& b.position.y == tile_center(
                                INITIAL_WINDOW_HEIGHT as int,
                                side,
                                k % side,
                            ) as i64
                            &&& b.movement.id == k
                            &&& b.movement.speed == config.speed
                            &&& b.movement.rotation_speed == config.rotation_speed
                            &&& b.separation.radius == config.separation_radius
                            &&& b.separation.factor == config.separation_factor
                            &&& b.alignment.radius == config.alignment_radius
                            &&& b.alignment.factor == config.alignment_factor
                            &&& b.cohesion.radius == config.cohesion_radius
                            &&& b.cohesion.factor == config.cohesion_factor
                            &&& b.separation.velocity.is_zero()
                            &&& b.alignment.velocity.is_zero()
                            &&& b.cohesion.velocity.is_zero()
                            &&& 0 <= b.heading < TURN
                            &&& 0 <= b.movement.target_angle < TURN
                        },
                decreases config.count - i,
            {
                let grid = grids[i];
                let heading = random_below(TURN as u32) as i64;
                let target = random_below(TURN as u32) as i64;
                let zero = Vec2I { x: 0, y: 0 };
                flock.push(
                    Boid {
                        position: Vec2I { x: grid.x, y: grid.y },
                        heading,
                        movement: BoidMovement {
                            id: i,
                            speed: config.speed,
                            target_angle: target,
                            rotation_speed: config.rotation_speed,
                        },
                        separation: SeparationRule {
                            id: i,
                            radius: config.separation_radius,
                            factor: config.separation_factor,
                            velocity: zero,
                        },
                        alignment: AlignmentRule {
                            id: i,
                            radius: config.alignment_radius,
                            factor: config.alignment_factor,
                            velocity: zero,
                        },
                        cohesion: CohesionRule {
                            id: i,
                            radius: config.cohesion_radius,
                            factor: config.cohesion_factor,
                            velocity: zero,
                        },
                    },
                );
                i = i + 1;
            }
            Ok(flock)
        },
    }
}

/// The frame of one boundary wall for a window of the given size, matching
/// the wall layout of the default window: thin strips along each edge.
pub fn wall_frame(wall: Wall, width: i64, height: i64) -> (f: RectFrame)
    requires
        0 <= width <= 2 * POS_LIMIT,
        0 <= height <= 2 * POS_LIMIT,
    ensures
        wall is Top ==> f == (RectFrame {
            x: 0,
            y: sdiv(height - WALL_THICKNESS as int, 2) as i64,
            width,
            height: WALL_THICKNESS,
        }),
        wall is Left ==> f == (RectFrame {
            x: sdiv(-width + WALL_THICKNESS as int, 2) as i64,
            y: 0,
            width: WALL_THICKNESS,
            height,
        }),
        wall is Bottom ==> f == (RectFrame {
            x: 0,
            y: sdiv(-height + WALL_THICKNESS as int, 2) as i64,
            width,
            height: WALL_THICKNESS,
        }),
        wall is Right ==> f == (RectFrame {
            x: sdiv(width - WALL_THICKNESS as int, 2) as i64,
            y: 0,
            width: WALL_THICKNESS,
            height,
        }),
{
    match wall {
        Wall::Top => RectFrame {
            x: 0,
            y: div_trunc(height - WALL_THICKNESS, 2),
            width,
            height: WALL_THICKNESS,
        },
        Wall::Left => RectFrame {
            x: div_trunc(-width + WALL_THICKNESS, 2),
            y: 0,
            width: WALL_THICKNESS,
            height,
        },
        Wall::Bottom => RectFrame {
            x: 0,
            y: div_trunc(-height + WALL_THICKNESS, 2),
            width,
            height: WALL_THICKNESS,
        },
        Wall::Right => RectFrame {
            x: div_trunc(width - WALL_THICKNESS, 2),
            y: 0,
            width: WALL_THICKNESS,
            height,
        },
    }
}

/// Distinct spawn tiles never share a center: two different indices into
/// the spawn grid of a population within capacity give tile centers that
/// differ in at least one coordinate, so the tiled placement is
/// non-overlapping.
pub proof fn lemma_tile_centers_distinct(count: int, i: int, j: int)
    requires
        0 <= count <= POP_LIMIT,
        0 <= i < grid_side(count) * grid_side(count),
        0 <= j < grid_side(count) * grid_side(count),
        i != j,
    ensures
        ({
            let side = grid_side(count);
            tile_center(INITIAL_WINDOW_WIDTH as int, side, i / side) != tile_center(
                INITIAL_WINDOW_WIDTH as int,
                side,
                j / side,
            ) || tile_center(INITIAL_WINDOW_HEIGHT as int, side, i % side) != tile_center(
                INITIAL_WINDOW_HEIGHT as int,
                side,
                j % side,
            )
        }),
{
    let side = grid_side(count);
    crate::math::lemma_sqrt_floor_monotone(count, 10_000);
    crate::math::lemma_sqrt_floor_square(100);
    assert(100 * 100 == 10_000) by (nonlinear_arith) {}
    assert(2 <= side <= 101);
    let tw = INITIAL_WINDOW_WIDTH as int / side;
    let th = INITIAL_WINDOW_HEIGHT as int / side;
    assert(tw >= 1 && th >= 1) by (nonlinear_arith)
        requires
            2 <= side <= 101,
            tw == 2_560_000int / side,
            th == 1_800_000int / side,
    {
    }
    let ri = i / side;
    let ci = i % side;
    let rj = j / side;
    let cj = j % side;
    assert(i == side * ri + ci && 0 <= ci < side && j == side * rj + cj && 0 <= cj < side)
        by (nonlinear_arith)
        requires
            side > 0,
            i >= 0,
            j >= 0,
            ri == i / side,
            ci == i % side,
            rj == j / side,
            cj == j % side,
    {
    }
    if ri == rj && ci == cj {
        assert(i == j);
    }
    if ci != cj {
        assert(ci * th != cj * th) by (nonlinear_arith)
            requires
                th >= 1,
                ci != cj,
        {
        }
    } else {
        assert(ri != rj);
        assert(ri * tw != rj * tw) by (nonlinear_arith)
            requires
                tw >= 1,
                ri != rj,
        {
        }
    }
}

} // verus!
