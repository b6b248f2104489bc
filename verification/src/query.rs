//! The neighbor query: a brute-force all-pairs scan over a flock snapshot.
//!
//! The query is a pure function of the snapshot.  It never mutates anything,
//! so running it twice against the same snapshot returns the same neighbor
//! list; the boundary test is inclusive: an agent exactly at the radius is a
//! neighbor.

use vstd::prelude::*;

use crate::components::{flock_valid, Boid, Vec2I};
use crate::math::{isqrt, lemma_sqrt_floor_monotone, lemma_sqrt_floor_square, sqrt_floor};
use crate::{POS_LIMIT, RADIUS_LIMIT};

verus! {

/// Squared Euclidean distance between two points.
pub open spec fn dist2(a: Vec2I, b: Vec2I) -> int {
    (a.x - b.x) * (a.x - b.x) + (a.y - b.y) * (a.y - b.y)
}

/// True when `b` lies within `radius` of `a` (boundary included).
pub open spec fn within_radius(a: Vec2I, b: Vec2I, radius: int) -> bool {
    dist2(a, b) <= radius * radius
}

/// True when agent `j` counts as a neighbor of agent `i` for the given
/// radius: a different id, and within the radius of `i`'s position.
pub open spec fn qualifies(s: Seq<Boid>, i: int, j: int, radius: int) -> bool {
    &&& s[j].movement.id != s[i].movement.id
    &&& within_radius(s[i].position, s[j].position, radius)
}

/// The qualifying indices among the first `n` agents, in increasing order.
pub open spec fn neighbor_prefix(s: Seq<Boid>, i: int, radius: int, n: int) -> Seq<usize>
    decreases n,
{
    if n <= 0 {
        Seq::empty()
    } else {
        let rest = neighbor_prefix(s, i, radius, n - 1);
        if qualifies(s, i, n - 1, radius) {
            rest.push((n - 1) as usize)
        } else {
            rest
        }
    }
}

/// The neighbor set of agent `i` in snapshot `s`, as an ordered index list.
pub open spec fn neighbor_seq(s: Seq<Boid>, i: int, radius: int) -> Seq<usize> {
    neighbor_prefix(s, i, radius, s.len() as int)
}

/// Every entry of a neighbor prefix is a qualifying index below `n`, and
/// every qualifying index below `n` appears in it.
pub proof fn lemma_neighbor_prefix_membership(s: Seq<Boid>, i: int, radius: int, n: int)
    requires
        0 <= n <= usize::MAX,
    ensures
        forall|k: int|
            0 <= k < neighbor_prefix(s, i, radius, n).len() ==> {
                let j = #[trigger] neighbor_prefix(s, i, radius, n)[k];
                0 <= j < n && qualifies(s, i, j as int, radius)
            },
        forall|j: int|
            0 <= j < n && #[trigger] qualifies(s, i, j, radius) ==> neighbor_prefix(
                s,
                i,
                radius,
                n,
            ).contains(j as usize),
    decreases n,
{
    if n > 0 {
        lemma_neighbor_prefix_membership(s, i, radius, n - 1);
        let rest = neighbor_prefix(s, i, radius, n - 1);
        assert forall|j: int|
            0 <= j < n && #[trigger] qualifies(s, i, j, radius) implies neighbor_prefix(
            s,
            i,
            radius,
            n,
        ).contains(j as usize) by {
            if j < n - 1 {
                let k = choose|k: int| 0 <= k < rest.len() && rest[k] == j as usize;
                assert(neighbor_prefix(s, i, radius, n)[k] == j as usize);
            } else {
                let full = neighbor_prefix(s, i, radius, n);
                assert(full[full.len() - 1] == j as usize);
            }
        }
    }
}

/// A neighbor prefix never holds more entries than agents scanned.
pub proof fn lemma_neighbor_prefix_len(s: Seq<Boid>, i: int, radius: int, n: int)
    ensures
        neighbor_prefix(s, i, radius, n).len() <= if n >= 0 {
            n
        } else {
            0
        },
    decreases n,
{
    if n > 0 {
        lemma_neighbor_prefix_len(s, i, radius, n - 1);
    }
}

/// An agent with no qualifying peers has an empty neighbor set.
pub proof fn lemma_no_neighbors_empty(s: Seq<Boid>, i: int, radius: int)
    requires
        s.len() <= usize::MAX,
        forall|j: int| 0 <= j < s.len() ==> !#[trigger] qualifies(s, i, j, radius),
    ensures
        neighbor_seq(s, i, radius).len() == 0,
{
    lemma_neighbor_prefix_membership(s, i, radius, s.len() as int);
    let ns = neighbor_seq(s, i, radius);
    if ns.len() > 0 {
        assert(0 <= ns[0] < s.len() && qualifies(s, i, ns[0] as int, radius));
    }
}

/// The neighbor query reads only the snapshot it is given: on equal
/// snapshots, with the same agent and radius, it returns identical neighbor
/// sets, so querying twice without a mutation in between changes nothing.
pub proof fn lemma_neighbor_query_idempotent(s1: Seq<Boid>, s2: Seq<Boid>, i: int, radius: int)
    requires
        s1 == s2,
    ensures
        neighbor_seq(s1, i, radius) == neighbor_seq(s2, i, radius),
{
}

/// True when `b` lies within `radius` of `a` (boundary included).
pub fn within_radius_fp(a: Vec2I, b: Vec2I, radius: i64) -> (r: bool)
    requires
        -POS_LIMIT <= a.x <= POS_LIMIT,
        -POS_LIMIT <= a.y <= POS_LIMIT,
        -POS_LIMIT <= b.x <= POS_LIMIT,
        -POS_LIMIT <= b.y <= POS_LIMIT,
        0 <= radius <= RADIUS_LIMIT,
    ensures
        r == within_radius(a, b, radius as int),
{
    let d2 = dist2_fp(a, b);
    proof {
        assert(0 <= (radius as int) * (radius as int) <= 1_000_000_000_000_000_000)
            by (nonlinear_arith)
            requires
                0 <= radius as int <= 1_000_000_000,
        {
        }
    }
    d2 <= radius * radius
}

/// Squared distance between two in-range points; stays below `2^63`.
pub fn dist2_fp(a: Vec2I, b: Vec2I) -> (d2: i64)
    requires
        -POS_LIMIT <= a.x <= POS_LIMIT,
        -POS_LIMIT <= a.y <= POS_LIMIT,
        -POS_LIMIT <= b.x <= POS_LIMIT,
        -POS_LIMIT <= b.y <= POS_LIMIT,
    ensures
        d2 == dist2(a, b),
        0 <= d2 <= 8_000_000_000_000_000_000,
{
    let dx = a.x - b.x;
    let dy = a.y - b.y;
    proof {
        assert(0 <= (dx as int) * (dx as int) <= 4_000_000_000_000_000_000
            && 0 <= (dy as int) * (dy as int) <= 4_000_000_000_000_000_000) by (nonlinear_arith)
            requires
                -2_000_000_000 <= dx as int <= 2_000_000_000,
                -2_000_000_000 <= dy as int <= 2_000_000_000,
        {
        }
    }
    dx * dx + dy * dy
}

/// Euclidean distance between two in-range points, rounded down.
pub fn dist_fp(a: Vec2I, b: Vec2I) -> (d: i64)
    requires
        -POS_LIMIT <= a.x <= POS_LIMIT,
        -POS_LIMIT <= a.y <= POS_LIMIT,
        -POS_LIMIT <= b.x <= POS_LIMIT,
        -POS_LIMIT <= b.y <= POS_LIMIT,
    ensures
        d == sqrt_floor(dist2(a, b)),
        0 <= d <= 3_000_000_000,
{
    let d2 = dist2_fp(a, b);
    isqrt(d2 as u64) as i64
}

/// Within the radius, the rounded distance is at most the radius.
pub proof fn lemma_within_dist_le_radius(a: Vec2I, b: Vec2I, radius: int)
    requires
        radius >= 0,
        within_radius(a, b, radius),
    ensures
        0 <= sqrt_floor(dist2(a, b)) <= radius,
{
    assert(dist2(a, b) >= 0) by (nonlinear_arith) {}
    lemma_sqrt_floor_monotone(dist2(a, b), radius * radius);
    lemma_sqrt_floor_square(radius);
    crate::math::lemma_sqrt_floor_bounds(dist2(a, b));
}

/// All other agents within `radius` of agent `idx`, as an ordered list of
/// indices into the snapshot.  Pure: the snapshot is only read, so repeated
/// queries against an unchanged snapshot agree.
pub fn neighbors_of(boids: &Vec<Boid>, idx: usize, radius: i64) -> (ns: Vec<usize>)
    requires
        flock_valid(boids@),
        idx < boids.len(),
        0 <= radius <= RADIUS_LIMIT,
    ensures
        ns@ == neighbor_seq(boids@, idx as int, radius as int),
{
    let n = boids.len();
    let mut ns: Vec<usize> = Vec::new();
    let mut j: usize = 0;
    while j < n
        invariant
            flock_valid(boids@),
            idx < n == boids.len(),
            0 <= radius <= RADIUS_LIMIT,
            j <= n,
            ns@ == neighbor_prefix(boids@, idx as int, radius as int, j as int),
        decreases n - j,
    {
        if boids[j].movement.id != boids[idx].movement.id
            && within_radius_fp(boids[idx].position, boids[j].position, radius) {
            ns.push(j);
        }
        j = j + 1;
    }
    ns
}

} // verus!
