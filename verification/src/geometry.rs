//! Plane geometry over integer world coordinates: exact squared distance,
//! floor square root, midpoint, and the quadrant-aware direction of the
//! segment from one point to another.

use vstd::prelude::*;

verus! {

/// Largest coordinate magnitude the kernel accepts. Keeping coordinates in
/// this range makes every squared distance fit in a `u64`.
pub const COORD_LIMIT: i64 = 1_000_000_000;

/// A position in the 2D world. The host chooses the unit scale.
#[derive(Clone, Copy, Debug, PartialEq, Eq, Structural)]
pub struct Point {
    pub x: i64,
    pub y: i64,
}

impl Point {
    /// Both coordinates are within the range the kernel accepts.
    pub open spec fn in_bounds(self) -> bool {
        &&& -COORD_LIMIT <= self.x <= COORD_LIMIT
        &&& -COORD_LIMIT <= self.y <= COORD_LIMIT
    }

    /// Exact squared Euclidean distance to `other`.
    pub open spec fn dist_sq(self, other: Point) -> int {
        let dx = other.x - self.x;
        let dy = other.y - self.y;
        dx * dx + dy * dy
    }
}

/// `r` is the square root of `n`, rounded down.
pub open spec fn is_floor_sqrt(n: int, r: int) -> bool {
    &&& 0 <= r
    &&& r * r <= n
    &&& n < (r + 1) * (r + 1)
}

/// Squared distances of in-bounds points stay within `u64` range.
pub proof fn lemma_dist_sq_bounds(p: Point, q: Point)
    requires
        p.in_bounds(),
        q.in_bounds(),
    ensures
        0 <= p.dist_sq(q) <= 8_000_000_000_000_000_000,
{
    let dx = q.x - p.x;
    let dy = q.y - p.y;
    assert(0 <= dx * dx <= 4_000_000_000_000_000_000) by (nonlinear_arith)
        requires
            -2_000_000_000 <= dx <= 2_000_000_000,
    ;
    assert(0 <= dy * dy <= 4_000_000_000_000_000_000) by (nonlinear_arith)
        requires
            -2_000_000_000 <= dy <= 2_000_000_000,
    ;
}

/// The squared distance is zero exactly between a point and itself.
pub proof fn lemma_dist_sq_zero_iff_eq(p: Point, q: Point)
    ensures
        p.dist_sq(q) == 0 <==> p == q,
{
    let dx = q.x - p.x;
    let dy = q.y - p.y;
    assert(dx * dx + dy * dy == 0 <==> dx == 0 && dy == 0) by (nonlinear_arith);
}

/// A number has exactly one floor square root.
pub proof fn lemma_floor_sqrt_unique(n: int, r1: int, r2: int)
    requires
        is_floor_sqrt(n, r1),
        is_floor_sqrt(n, r2),
    ensures
        r1 == r2,
{
    assert(r1 == r2) by (nonlinear_arith)
        requires
            0 <= r1,
            0 <= r2,
            r1 * r1 <= n < (r1 + 1) * (r1 + 1),
            r2 * r2 <= n < (r2 + 1) * (r2 + 1),
    ;
}

/// Floor square roots are ordered as their arguments are: minimizing the
/// squared distance also minimizes the rounded distance.
pub proof fn lemma_floor_sqrt_monotonic(n1: int, r1: int, n2: int, r2: int)
    requires
        is_floor_sqrt(n1, r1),
        is_floor_sqrt(n2, r2),
        n1 <= n2,
    ensures
        r1 <= r2,
{
    assert(r1 <= r2) by (nonlinear_arith)
        requires
            0 <= r1,
            0 <= r2,
            r1 * r1 <= n1 < (r1 + 1) * (r1 + 1),
            r2 * r2 <= n2 < (r2 + 1) * (r2 + 1),
            n1 <= n2,
    ;
}

/// Exact squared Euclidean distance between two in-bounds points.
pub fn dist_squared(p: Point, q: Point) -> (r: u64)
    requires
        p.in_bounds(),
        q.in_bounds(),
    ensures
        r == p.dist_sq(q),
{
    let adx: u64 = if q.x >= p.x {
        (q.x - p.x) as u64
    } else {
        (p.x - q.x) as u64
    };
    let ady: u64 = if q.y >= p.y {
        (q.y - p.y) as u64
    } else {
        (p.y - q.y) as u64
    };
    proof {
        let dx = q.x - p.x;
        let dy = q.y - p.y;
        assert(adx * adx == dx * dx && adx * adx <= 4_000_000_000_000_000_000) by (nonlinear_arith)
            requires
                0 <= adx <= 2_000_000_000,
                adx == dx || adx == -dx,
        ;
        assert(ady * ady == dy * dy && ady * ady <= 4_000_000_000_000_000_000) by (nonlinear_arith)
            requires
                0 <= ady <= 2_000_000_000,
                ady == dy || ady == -dy,
        ;
    }
    adx * adx + ady * ady
}

/// Square root of `n`, rounded down, by binary search.
pub fn isqrt(n: u64) -> (r: u64)
    ensures
        is_floor_sqrt(n as int, r as int),
{
    let mut lo: u64 = 0;
    let mut hi: u64 = 4_294_967_295;
    proof {
        assert((hi as int + 1) * (hi as int + 1) == 18_446_744_073_709_551_616int);
    }
    while lo < hi
        invariant
            lo <= hi <= 4_294_967_295,
            (lo as int) * (lo as int) <= n as int,
            (n as int) < (hi as int + 1) * (hi as int + 1),
        decreases hi - lo,
    {
        let mid: u64 = lo + (hi - lo + 1) / 2;
        proof {
            assert(mid * mid <= 18_446_744_065_119_617_025u64) by (nonlinear_arith)
                requires
                    mid <= 4_294_967_295u64,
            ;
        }
        let sq: u64 = mid * mid;
        if sq <= n {
            lo = mid;
        } else {
            hi = mid - 1;
        }
    }
    lo
}

/// Euclidean distance between two in-bounds points, rounded down.
pub fn distance(p: Point, q: Point) -> (r: u64)
    requires
        p.in_bounds(),
        q.in_bounds(),
    ensures
        is_floor_sqrt(p.dist_sq(q), r as int),
{
    let sq: u64 = dist_squared(p, q);
    isqrt(sq)
}

/// Halves a sum of two in-range coordinates, rounding down.
fn half_floor(s: i64) -> (h: i64)
    requires
        -4_000_000_000 <= s <= 4_000_000_000,
    ensures
        h == s as int / 2,
{
    if s >= 0 {
        ((s as u64) / 2) as i64
    } else {
        let m: u64 = (-s) as u64;
        -(((m + 1) / 2) as i64)
    }
}

/// Arithmetic mean of the two points, each coordinate rounded down.
pub fn midpoint(p: Point, q: Point) -> (r: Point)
    requires
        p.in_bounds(),
        q.in_bounds(),
    ensures
        r.x == (p.x + q.x) / 2,
        r.y == (p.y + q.y) / 2,
{
    Point { x: half_floor(p.x + q.x), y: half_floor(p.y + q.y) }
}

/// The displacement from `p` to `q`, the exact input `atan2` needs to turn
/// the segment's orientation into radians.
pub fn direction(p: Point, q: Point) -> (d: (i64, i64))
    requires
        p.in_bounds(),
        q.in_bounds(),
    ensures
        d.0 == q.x - p.x,
        d.1 == q.y - p.y,
{
    (q.x - p.x, q.y - p.y)
}

/// Where the angle `atan2(dy, dx)` of a displacement falls within the
/// half-open range `(-pi, pi]`, named by axis and open quadrant.
#[derive(Clone, Copy, Debug, PartialEq, Eq, Structural)]
pub enum Quadrant {
    /// `atan2 == 0`: straight along the positive x axis.
    PositiveXAxis,
    /// `0 < atan2 < pi/2`.
    UpperRight,
    /// `atan2 == pi/2`: straight up.
    PositiveYAxis,
    /// `pi/2 < atan2 < pi`.
    UpperLeft,
    /// `atan2 == pi`: straight along the negative x axis.
    NegativeXAxis,
    /// `-pi < atan2 < -pi/2`.
    LowerLeft,
    /// `atan2 == -pi/2`: straight down.
    NegativeYAxis,
    /// `-pi/2 < atan2 < 0`.
    LowerRight,
}

/// Quadrant of `atan2(dy, dx)`; `None` for the zero displacement, whose
/// angle is undefined.
pub open spec fn quadrant_of(dx: int, dy: int) -> Option<Quadrant> {
    if dx == 0 && dy == 0 {
        None
    } else if dy == 0 {
        if dx > 0 {
            Some(Quadrant::PositiveXAxis)
        } else {
            Some(Quadrant::NegativeXAxis)
        }
    } else if dx == 0 {
        if dy > 0 {
            Some(Quadrant::PositiveYAxis)
        } else {
            Some(Quadrant::NegativeYAxis)
        }
    } else if dx > 0 {
        if dy > 0 {
            Some(Quadrant::UpperRight)
        } else {
            Some(Quadrant::LowerRight)
        }
    } else {
        if dy > 0 {
            Some(Quadrant::UpperLeft)
        } else {
            Some(Quadrant::LowerLeft)
        }
    }
}

/// Quadrant of the angle of the segment from `p` to `q`. Unlike a bare
/// `atan(dy / dx)`, this distinguishes all four quadrants and both axes and
/// is defined for a vertical displacement.
pub fn quadrant(p: Point, q: Point) -> (r: Option<Quadrant>)
    requires
        p.in_bounds(),
        q.in_bounds(),
    ensures
        r == quadrant_of(q.x - p.x, q.y - p.y),
        r is None <==> p == q,
{
    let dx: i64 = q.x - p.x;
    let dy: i64 = q.y - p.y;
    if dx == 0 && dy == 0 {
        None
    } else if dy == 0 {
        if dx > 0 {
            Some(Quadrant::PositiveXAxis)
        } else {
            Some(Quadrant::NegativeXAxis)
        }
    } else if dx == 0 {
        if dy > 0 {
            Some(Quadrant::PositiveYAxis)
        } else {
            Some(Quadrant::NegativeYAxis)
        }
    } else if dx > 0 {
        if dy > 0 {
            Some(Quadrant::UpperRight)
        } else {
            Some(Quadrant::LowerRight)
        }
    } else {
        if dy > 0 {
            Some(Quadrant::UpperLeft)
        } else {
            Some(Quadrant::LowerLeft)
        }
    }
}

} // verus!
