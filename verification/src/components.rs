//! Per-agent state: position and heading, the three steering rules with their
//! per-agent parameters, and the world bounds.

use vstd::prelude::*;

use crate::{
    DT_LIMIT, FACTOR_LIMIT, POP_LIMIT, POS_LIMIT, RADIUS_LIMIT, RATE_LIMIT, SPEED_LIMIT, TURN,
    VEL_LIMIT,
};

verus! {

/// A 2D vector with fixed-point integer components.
#[derive(Clone, Copy, PartialEq, Eq, Structural, Debug)]
pub struct Vec2I {
    pub x: i64,
    pub y: i64,
}

impl Vec2I {
    /// Builds the vector `(x, y)`.
    pub fn new(x: i64, y: i64) -> (v: Vec2I)
        ensures
            v.x == x,
            v.y == y,
    {
        Vec2I { x, y }
    }

    /// The zero vector.
    pub fn zero() -> (v: Vec2I)
        ensures
            v.x == 0,
            v.y == 0,
    {
        Vec2I { x: 0, y: 0 }
    }

    /// True when both components are zero.
    pub open spec fn is_zero(self) -> bool {
        self.x == 0 && self.y == 0
    }
}

/// Separation: steer away from neighbors that crowd in, harder the closer
/// they are.
#[derive(Clone, Copy, PartialEq, Eq, Structural, Debug)]
pub struct SeparationRule {
    pub id: usize,
    /// Neighbor-detection distance, in milli-units.
    pub radius: i64,
    /// Rule weight scaled by `SCALE`; `SCALE` is full strength, 0 is off.
    pub factor: i64,
    /// The most recently computed rule output vector.
    pub velocity: Vec2I,
}

impl SeparationRule {
    /// Builds a separation rule record.
    pub fn new(id: usize, radius: i64, factor: i64, velocity: Vec2I) -> (r: SeparationRule)
        ensures
            r == (SeparationRule { id, radius, factor, velocity }),
    {
        SeparationRule { id, radius, factor, velocity }
    }
}

/// Alignment: steer toward the average heading of nearby neighbors.
#[derive(Clone, Copy, PartialEq, Eq, Structural, Debug)]
pub struct AlignmentRule {
    pub id: usize,
    /// Neighbor-detection distance, in milli-units.
    pub radius: i64,
    /// Rule weight scaled by `SCALE`; `SCALE` is full strength, 0 is off.
    pub factor: i64,
    /// The most recently computed rule output vector.
    pub velocity: Vec2I,
}

impl AlignmentRule {
    /// Builds an alignment rule record.
    pub fn new(id: usize, radius: i64, factor: i64, velocity: Vec2I) -> (r: AlignmentRule)
        ensures
            r == (AlignmentRule { id, radius, factor, velocity }),
    {
        AlignmentRule { id, radius, factor, velocity }
    }
}

/// Cohesion: steer toward the centroid of nearby neighbors.
#[derive(Clone, Copy, PartialEq, Eq, Structural, Debug)]
pub struct CohesionRule {
    pub id: usize,
    /// Neighbor-detection distance, in milli-units.
    pub radius: i64,
    /// Rule weight scaled by `SCALE`; `SCALE` is full strength, 0 is off.
    pub factor: i64,
    /// The most recently computed rule output vector.
    pub velocity: Vec2I,
}

impl CohesionRule {
    /// Builds a cohesion rule record.
    pub fn new(id: usize, radius: i64, factor: i64, velocity: Vec2I) -> (r: CohesionRule)
        ensures
            r == (CohesionRule { id, radius, factor, velocity }),
    {
        CohesionRule { id, radius, factor, velocity }
    }
}

/// Kinematic state of one agent: how fast it moves, where it wants to point,
/// and how quickly it may turn.
#[derive(Clone, Copy, PartialEq, Eq, Structural, Debug)]
pub struct BoidMovement {
    pub id: usize,
    /// Forward speed, in milli-units per second.
    pub speed: i64,
    /// Desired heading, in micro-turns.
    pub target_angle: i64,
    /// Largest angular change per second, in micro-turns.
    pub rotation_speed: i64,
}

impl BoidMovement {
    /// Builds a movement record.
    pub fn new(id: usize, speed: i64, target_angle: i64, rotation_speed: i64) -> (m: BoidMovement)
        ensures
            m == (BoidMovement { id, speed, target_angle, rotation_speed }),
    {
        BoidMovement { id, speed, target_angle, rotation_speed }
    }
}

/// One complete agent: position, heading, kinematics and the three rules.
#[derive(Clone, Copy, PartialEq, Eq, Structural, Debug)]
pub struct Boid {
    /// World position, in milli-units.
    pub position: Vec2I,
    /// Current facing, in micro-turns counter-clockwise from the x axis.
    pub heading: i64,
    pub movement: BoidMovement,
    pub separation: SeparationRule,
    pub alignment: AlignmentRule,
    pub cohesion: CohesionRule,
}

/// Radius and factor within the configured machine limits; a zero or negative
/// radius is rejected at configuration time, so valid agents never carry one.
pub open spec fn rule_params_valid(radius: int, factor: int) -> bool {
    &&& 1 <= radius <= RADIUS_LIMIT
    &&& 0 <= factor <= FACTOR_LIMIT
}

/// Well-formedness of one agent: angles are normalized micro-turns, scalars
/// respect the machine limits, and all components agree on the agent id.
pub open spec fn boid_valid(b: Boid) -> bool {
    &&& -POS_LIMIT <= b.position.x <= POS_LIMIT
    &&& -POS_LIMIT <= b.position.y <= POS_LIMIT
    &&& 0 <= b.heading < TURN
    &&& 0 <= b.movement.target_angle < TURN
    &&& 0 <= b.movement.speed <= SPEED_LIMIT
    &&& 0 <= b.movement.rotation_speed <= RATE_LIMIT
    &&& rule_params_valid(b.separation.radius as int, b.separation.factor as int)
    &&& rule_params_valid(b.alignment.radius as int, b.alignment.factor as int)
    &&& rule_params_valid(b.cohesion.radius as int, b.cohesion.factor as int)
    &&& b.separation.id == b.movement.id
    &&& b.alignment.id == b.movement.id
    &&& b.cohesion.id == b.movement.id
    &&& -VEL_LIMIT <= b.separation.velocity.x <= VEL_LIMIT
    &&& -VEL_LIMIT <= b.separation.velocity.y <= VEL_LIMIT
    &&& -VEL_LIMIT <= b.alignment.velocity.x <= VEL_LIMIT
    &&& -VEL_LIMIT <= b.alignment.velocity.y <= VEL_LIMIT
    &&& -VEL_LIMIT <= b.cohesion.velocity.x <= VEL_LIMIT
    &&& -VEL_LIMIT <= b.cohesion.velocity.y <= VEL_LIMIT
}

/// Well-formedness of a whole flock snapshot.
pub open spec fn flock_valid(s: Seq<Boid>) -> bool {
    &&& s.len() <= POP_LIMIT
    &&& forall|i: int| 0 <= i < s.len() ==> boid_valid(#[trigger] s[i])
}

/// The rectangular simulation area, in milli-unit world coordinates.
#[derive(Clone, Copy, PartialEq, Eq, Structural, Debug)]
pub struct Bounds {
    pub left: i64,
    pub right: i64,
    pub bottom: i64,
    pub top: i64,
}

impl Bounds {
    /// Edges are ordered and lie within the world's coordinate limit.
    pub open spec fn valid(self) -> bool {
        &&& -POS_LIMIT <= self.left <= self.right <= POS_LIMIT
        &&& -POS_LIMIT <= self.bottom <= self.top <= POS_LIMIT
    }

    /// Builds the bounds of a window of the given size centered on the origin.
    pub fn from_window(width: i64, height: i64) -> (b: Bounds)
        requires
            0 <= width <= 2 * POS_LIMIT,
            0 <= height <= 2 * POS_LIMIT,
        ensures
            b.left == -(width / 2) && b.right == width / 2,
            b.bottom == -(height / 2) && b.top == height / 2,
            b.valid(),
    {
        Bounds { left: -(width / 2), right: width / 2, bottom: -(height / 2), top: height / 2 }
    }

    /// True when `p` lies inside the bounds (edges included).
    pub open spec fn holds_point(self, p: Vec2I) -> bool {
        &&& self.left <= p.x <= self.right
        &&& self.bottom <= p.y <= self.top
    }
}

/// A rectangle given by its center and size, used for wall frames and spawn
/// tiles; all fields are milli-units.
#[derive(Clone, Copy, PartialEq, Eq, Structural, Debug)]
pub struct RectFrame {
    pub x: i64,
    pub y: i64,
    pub width: i64,
    pub height: i64,
}

impl RectFrame {
    /// Builds a frame centered at `(x, y)` of size `w` by `h`.
    pub fn new(x: i64, y: i64, w: i64, h: i64) -> (f: RectFrame)
        ensures
            f == (RectFrame { x, y, width: w, height: h }),
    {
        RectFrame { x, y, width: w, height: h }
    }

    /// The frame's center point.
    pub fn pos(&self) -> (p: Vec2I)
        ensures
            p.x == self.x,
            p.y == self.y,
    {
        Vec2I { x: self.x, y: self.y }
    }

    /// The frame's size as a width/height pair.
    pub fn size(&self) -> (s: Vec2I)
        ensures
            s.x == self.width,
            s.y == self.height,
    {
        Vec2I { x: self.width, y: self.height }
    }
}

/// The four boundary walls of the simulation window.
#[derive(Clone, Copy, PartialEq, Eq, Structural, Debug)]
pub enum Wall {
    Top,
    Right,
    Bottom,
    Left,
}

/// Debug-observation toggles a host may flip; the core never reads them
/// inside the steering math.
#[derive(Clone, Copy, PartialEq, Eq, Structural, Debug)]
pub struct Configuration {
    pub movement_debug: bool,
    pub flock_debug: bool,
    pub volume_debug: bool,
    pub ray_debug: bool,
}

impl Default for Configuration {
    /// All observation toggles start switched off.
    fn default() -> (c: Configuration)
        ensures
            !c.movement_debug && !c.flock_debug && !c.volume_debug && !c.ray_debug,
    {
        Configuration {
            movement_debug: false,
            flock_debug: false,
            volume_debug: false,
            ray_debug: false,
        }
    }
}

/// An elapsed tick time that one integration step accepts.
pub open spec fn dt_valid(dt_ms: int) -> bool {
    0 <= dt_ms <= DT_LIMIT
}

} // verus!
