//! Fixed-point planar geometry: points, axis-aligned rectangles, the
//! static environment (world bounds, obstacle walls, target), and an
//! integer square root for distances. Coordinates are in milli-pixels.

use vstd::prelude::*;

verus! {

/// The largest coordinate the environment may use, in milli-pixels.
pub const COORD_LIMIT: i64 = 1000000000;

/// The largest magnitude a simulated position may reach: the world bounds
/// plus one tick of travel at the highest allowed speed.
pub const POS_LIMIT: i64 = 1100000000;

/// A point or displacement in the plane, in milli-pixels.
#[derive(Clone, Copy, PartialEq, Eq, Structural, Debug)]
pub struct Vec2 {
    pub x: i64,
    pub y: i64,
}

/// An axis-aligned rectangle, in milli-pixels.
#[derive(Clone, Copy, PartialEq, Eq, Structural, Debug)]
pub struct Rect {
    pub x: i64,
    pub y: i64,
    pub width: i64,
    pub height: i64,
}

impl Rect {
    /// A rectangle the environment accepts: non-negative fields within the
    /// coordinate limit.
    pub open spec fn wf(self) -> bool {
        &&& 0 <= self.x <= COORD_LIMIT
        &&& 0 <= self.y <= COORD_LIMIT
        &&& 0 <= self.width <= COORD_LIMIT
        &&& 0 <= self.height <= COORD_LIMIT
    }

    /// Strict interior membership: the point lies strictly inside all four
    /// sides.
    pub open spec fn contains_spec(self, p: Vec2) -> bool {
        &&& self.x < p.x < self.x + self.width
        &&& self.y < p.y < self.y + self.height
    }
}

/// The floor of the square root: r is the integer square root of n when
/// r^2 <= n < (r+1)^2.
pub open spec fn is_sqrt_floor(r: int, n: int) -> bool {
    &&& r * r <= n
    &&& n < (r + 1) * (r + 1)
}

/// The integer square root, by bisection.
pub fn isqrt(n: u64) -> (r: u64)
    requires
        n < 9000000000000000000,
    ensures
        is_sqrt_floor(r as int, n as int),
        r <= 3000000000,
{
    let mut lo: u64 = 0;
    let mut hi: u64 = 3000000000;
    while lo + 1 < hi
        invariant
            lo < hi <= 3000000000,
            lo * lo <= n,
            n < hi * hi,
        decreases hi - lo,
    {
        let mid: u64 = lo + (hi - lo) / 2;
        proof {
            assert(mid * mid <= 9000000000000000000) by (nonlinear_arith)
                requires mid <= 3000000000;
        }
        if mid * mid <= n {
            lo = mid;
        } else {
            hi = mid;
        }
    }
    lo
}

/// The squared Euclidean distance between two points.
pub open spec fn dist_sq_spec(a: Vec2, b: Vec2) -> int {
    (a.x - b.x) * (a.x - b.x) + (a.y - b.y) * (a.y - b.y)
}

/// The static world the rockets fly in: bounds, obstacle walls, and the
/// target disc. Immutable for a whole run.
pub struct Environment {
    pub width: i64,
    pub height: i64,
    pub walls: Vec<Rect>,
    pub target: Vec2,
    pub target_radius: i64,
}

impl Environment {
    /// A well-formed environment: positive bounds within the coordinate
    /// limit, the target inside the bounds, and every wall well formed.
    pub open spec fn wf(self) -> bool {
        &&& 0 < self.width <= COORD_LIMIT
        &&& 0 < self.height <= COORD_LIMIT
        &&& 0 <= self.target.x <= self.width
        &&& 0 <= self.target.y <= self.height
        &&& 0 <= self.target_radius <= COORD_LIMIT
        &&& forall|i: int| 0 <= i < self.walls@.len() ==> (#[trigger] self.walls@[i]).wf()
    }

    /// A position the simulation can hold: within one tick of travel of
    /// the world bounds.
    pub open spec fn pos_in_range(self, p: Vec2) -> bool {
        &&& -POS_LIMIT <= p.x <= POS_LIMIT
        &&& -POS_LIMIT <= p.y <= POS_LIMIT
    }

    /// Containment in the world bounds, with both edges included.
    pub open spec fn in_bounds_spec(self, p: Vec2) -> bool {
        0 <= p.x <= self.width && 0 <= p.y <= self.height
    }

    /// True iff the point lies inside the world bounds; leaving them is a
    /// failure condition.
    pub fn contains_point_in_bounds(&self, p: Vec2) -> (r: bool)
        ensures
            r == self.in_bounds_spec(p),
    {
        0 <= p.x && p.x <= self.width && 0 <= p.y && p.y <= self.height
    }

    /// A point hits an obstacle iff it lies strictly inside some wall.
    pub open spec fn hits_wall_spec(self, p: Vec2) -> bool {
        exists|i: int| 0 <= i < self.walls@.len() && (#[trigger] self.walls@[i]).contains_spec(p)
    }

    /// True iff the point lies strictly inside any obstacle rectangle.
    pub fn intersects_obstacle(&self, p: Vec2) -> (r: bool)
        requires
            self.wf(),
        ensures
            r == self.hits_wall_spec(p),
    {
        let n = self.walls.len();
        let mut i: usize = 0;
        while i < n
            invariant
                i <= n,
                n == self.walls@.len(),
                self.wf(),
                forall|j: int| 0 <= j < i ==> !(#[trigger] self.walls@[j]).contains_spec(p),
            decreases n - i,
        {
            let w = self.walls[i];
            if w.x < p.x && p.x < w.x + w.width && w.y < p.y && p.y < w.y + w.height {
                return true;
            }
            i = i + 1;
        }
        false
    }

    /// Success containment: strictly closer to the target center than the
    /// target radius.
    pub open spec fn in_target_spec(self, p: Vec2) -> bool {
        dist_sq_spec(p, self.target) < self.target_radius * self.target_radius
    }

    /// True iff the Euclidean distance from the point to the target center
    /// is strictly below the target radius.
    pub fn within_target(&self, p: Vec2) -> (r: bool)
        requires
            self.wf(),
            self.pos_in_range(p),
        ensures
            r == self.in_target_spec(p),
    {
        let dx: i64 = p.x - self.target.x;
        let dy: i64 = p.y - self.target.y;
        proof {
            assert(dx * dx <= 4410000000000000000 && dx * dx >= 0) by (nonlinear_arith)
                requires -2100000000 <= dx <= 2100000000;
            assert(dy * dy <= 4410000000000000000 && dy * dy >= 0) by (nonlinear_arith)
                requires -2100000000 <= dy <= 2100000000;
            assert(self.target_radius * self.target_radius <= 1000000000000000000
                && self.target_radius * self.target_radius >= 0) by (nonlinear_arith)
                requires 0 <= self.target_radius <= 1000000000;
        }
        dx * dx + dy * dy < self.target_radius * self.target_radius
    }

    /// The Euclidean distance from a point to the target center, rounded
    /// down to a whole number of milli-pixels.
    pub fn dist_to_target(&self, p: Vec2) -> (r: u64)
        requires
            self.wf(),
            self.pos_in_range(p),
        ensures
            is_sqrt_floor(r as int, dist_sq_spec(p, self.target)),
            r <= 3000000000,
    {
        let dx: i64 = p.x - self.target.x;
        let dy: i64 = p.y - self.target.y;
        proof {
            assert(dx * dx <= 4410000000000000000 && dx * dx >= 0) by (nonlinear_arith)
                requires -2100000000 <= dx <= 2100000000;
            assert(dy * dy <= 4410000000000000000 && dy * dy >= 0) by (nonlinear_arith)
                requires -2100000000 <= dy <= 2100000000;
        }
        let sq: u64 = (dx * dx) as u64 + (dy * dy) as u64;
        isqrt(sq)
    }
}

} // verus!
