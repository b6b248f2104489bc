//! A deterministic core for a 2D boids (flocking) simulation.
//!
//! Agents ("boids") steer by the three classic flocking rules — separation,
//! alignment and cohesion — inside a rectangular world.  All state is kept in
//! fixed-point integers so that every tick is exact and reproducible:
//!
//! * lengths and positions are in *milli-units* (one thousandth of a world
//!   unit);
//! * angles are in *micro-turns*: a full circle is [`TURN`] micro-turns,
//!   measured counter-clockwise from the positive x axis;
//! * dimensionless fractions (unit-vector components, rule weights) are
//!   scaled by [`SCALE`];
//! * time is in milliseconds.
//!
//! Each simulation tick reads a snapshot of the previous tick's state and
//! produces the next state (double buffering): the neighbor query feeds the
//! three rule evaluators, the combiner merges their outputs into a target
//! heading, the integrator rotates each agent toward it at a bounded angular
//! rate and advances the position, and the wrap boundary policy teleports
//! agents that left the world back in on the opposite edge.

use vstd::prelude::*;

pub mod angle;
pub mod components;
pub mod math;
pub mod movement;
pub mod query;
pub mod rules;
pub mod startup;

verus! {

/// Fixed-point scale for dimensionless fractions: 1.0 is represented as `SCALE`.
pub const SCALE: i64 = 1_000_000;

/// A full circle in micro-turns.
pub const TURN: i64 = 1_000_000;

/// Half a circle (180 degrees) in micro-turns.
pub const HALF_TURN: i64 = 500_000;

/// A quarter circle (90 degrees) in micro-turns.
pub const QUARTER_TURN: i64 = 250_000;

/// An eighth of a circle (45 degrees) in micro-turns.
pub const EIGHTH_TURN: i64 = 125_000;

/// Milliseconds per second, for time scaling.
pub const MILLIS_PER_SEC: i64 = 1_000;

/// Largest magnitude allowed for a position coordinate, in milli-units.
pub const POS_LIMIT: i64 = 1_000_000_000;

/// Largest forward speed, in milli-units per second.
pub const SPEED_LIMIT: i64 = 10_000_000;

/// Largest angular rate, in micro-turns per second.
pub const RATE_LIMIT: i64 = 1_000_000_000;

/// Largest neighbor radius, in milli-units.
pub const RADIUS_LIMIT: i64 = 1_000_000_000;

/// Largest rule weight factor; the nominal "full strength" factor is `SCALE`.
pub const FACTOR_LIMIT: i64 = 100_000_000;

/// Largest elapsed time handed to one tick, in milliseconds.
pub const DT_LIMIT: i64 = 60_000;

/// Largest magnitude a stored rule vector component may reach; rule outputs
/// stay within it whenever speed and factor respect their limits.
pub const VEL_LIMIT: i64 = 1_000_000_000;

/// Largest population a flock may hold.
pub const POP_LIMIT: usize = 10_000;

/// Default population of the demo flock.
pub const BOID_COUNT: usize = 128;

/// An agent id that never matches a live agent; hosts may use it to disable
/// per-agent debug observation.
pub const DEBUG_BOID_ID: usize = BOID_COUNT + 1;

/// Default window width, in milli-units.
pub const INITIAL_WINDOW_WIDTH: i64 = 2_560_000;

/// Default window height, in milli-units.
pub const INITIAL_WINDOW_HEIGHT: i64 = 1_800_000;

/// Thickness of the decorative boundary walls, in milli-units.
pub const WALL_THICKNESS: i64 = 10_000;

} // verus!
