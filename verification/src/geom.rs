//! Integer plane geometry: positions, sizes and velocities, squared-distance
//! range tests, and the strict axis-aligned bounding-box overlap test used by
//! hit detection.

use vstd::prelude::*;
use crate::units::COORD_LIMIT;

verus! {

/// A point, extent or velocity in the plane, in whole world units.
#[derive(Clone, Copy, Debug, PartialEq, Eq, Structural)]
pub struct Vec2 {
    pub x: i64,
    pub y: i64,
}

impl Vec2 {
    /// Both components within the coordinate bound.
    pub open spec fn bounded(self) -> bool {
        &&& -COORD_LIMIT <= self.x <= COORD_LIMIT
        &&& -COORD_LIMIT <= self.y <= COORD_LIMIT
    }

    /// A nonnegative extent within the coordinate bound, as a box size must
    /// be.
    pub open spec fn extent(self) -> bool {
        &&& 0 <= self.x <= COORD_LIMIT
        &&& 0 <= self.y <= COORD_LIMIT
    }

    pub open spec fn spec_is_zero(self) -> bool {
        self.x == 0 && self.y == 0
    }

    pub fn zero() -> (v: Self)
        ensures
            v.spec_is_zero(),
            v.bounded(),
    {
        Vec2 { x: 0, y: 0 }
    }

    pub fn is_zero(&self) -> (r: bool)
        ensures
            r == self.spec_is_zero(),
    {
        self.x == 0 && self.y == 0
    }
}

/// The squared Euclidean distance between two points.
pub open spec fn spec_dist_sq(a: Vec2, b: Vec2) -> int {
    (a.x - b.x) * (a.x - b.x) + (a.y - b.y) * (a.y - b.y)
}

/// Bound used to keep squared distances inside `u64`.
pub proof fn lemma_dist_sq_bound(a: Vec2, b: Vec2)
    requires
        a.bounded(),
        b.bounded(),
    ensures
        0 <= spec_dist_sq(a, b) <= 8 * COORD_LIMIT * COORD_LIMIT,
{
    let dx = a.x - b.x;
    let dy = a.y - b.y;
    assert(0 <= dx * dx <= 4 * COORD_LIMIT * COORD_LIMIT) by (nonlinear_arith)
        requires -2 * COORD_LIMIT <= dx <= 2 * COORD_LIMIT;
    assert(0 <= dy * dy <= 4 * COORD_LIMIT * COORD_LIMIT) by (nonlinear_arith)
        requires -2 * COORD_LIMIT <= dy <= 2 * COORD_LIMIT;
}

/// Compute the squared distance between two bounded points.
pub fn dist_sq(a: Vec2, b: Vec2) -> (d2: u64)
    requires
        a.bounded(),
        b.bounded(),
    ensures
        d2 == spec_dist_sq(a, b),
        d2 <= 8 * COORD_LIMIT * COORD_LIMIT,
{
    let dx = a.x - b.x;
    let dy = a.y - b.y;
    proof {
        assert(0 <= dx * dx <= 4 * COORD_LIMIT * COORD_LIMIT) by (nonlinear_arith)
            requires -2 * COORD_LIMIT <= dx <= 2 * COORD_LIMIT;
        assert(0 <= dy * dy <= 4 * COORD_LIMIT * COORD_LIMIT) by (nonlinear_arith)
            requires -2 * COORD_LIMIT <= dy <= 2 * COORD_LIMIT;
    }
    (dx * dx + dy * dy) as u64
}

/// Whether the distance between the points is strictly less than `range`:
/// compared on squares, which is exact for nonnegative range.
pub open spec fn spec_within_range(a: Vec2, b: Vec2, range: u64) -> bool {
    spec_dist_sq(a, b) < range * range
}

pub fn within_range(a: Vec2, b: Vec2, range: u64) -> (r: bool)
    requires
        a.bounded(),
        b.bounded(),
        range <= COORD_LIMIT,
    ensures
        r == spec_within_range(a, b, range),
{
    let d2 = dist_sq(a, b);
    proof {
        assert(range * range <= COORD_LIMIT * COORD_LIMIT) by (nonlinear_arith)
            requires 0 <= range <= COORD_LIMIT;
    }
    d2 < range * range
}

/// Whether the distance strictly exceeds `range` scaled by `num / den`:
/// `dist > range * num / den`, compared exactly as
/// `den^2 * dist^2 > num^2 * range^2`.
pub open spec fn spec_beyond_scaled_range(a: Vec2, b: Vec2, range: u64, num: u64, den: u64) -> bool {
    den * den * spec_dist_sq(a, b) > num * num * (range * range)
}

pub fn beyond_scaled_range(a: Vec2, b: Vec2, range: u64, num: u64, den: u64) -> (r: bool)
    requires
        a.bounded(),
        b.bounded(),
        range <= COORD_LIMIT,
        0 < den <= 16,
        num <= 16,
    ensures
        r == spec_beyond_scaled_range(a, b, range, num, den),
{
    let d2 = dist_sq(a, b);
    proof {
        assert(den * den <= 256 && num * num <= 256) by (nonlinear_arith)
            requires 0 < den <= 16, num <= 16;
        assert(range * range <= COORD_LIMIT * COORD_LIMIT) by (nonlinear_arith)
            requires 0 <= range <= COORD_LIMIT;
        assert((den * den) * d2 <= 256 * (8 * COORD_LIMIT * COORD_LIMIT)) by (nonlinear_arith)
            requires den * den <= 256, 0 <= d2 <= 8 * COORD_LIMIT * COORD_LIMIT;
        assert((num * num) * (range * range) <= 256 * (COORD_LIMIT * COORD_LIMIT))
            by (nonlinear_arith)
            requires num * num <= 256, 0 <= range * range <= COORD_LIMIT * COORD_LIMIT;
    }
    den * den * d2 > num * num * (range * range)
}

/// Whether the distance is strictly less than `range` scaled by `num / den`:
/// `dist < range * num / den`, compared exactly on squares.
pub open spec fn spec_within_scaled_range(a: Vec2, b: Vec2, range: u64, num: u64, den: u64) -> bool {
    den * den * spec_dist_sq(a, b) < num * num * (range * range)
}

pub fn within_scaled_range(a: Vec2, b: Vec2, range: u64, num: u64, den: u64) -> (r: bool)
    requires
        a.bounded(),
        b.bounded(),
        range <= COORD_LIMIT,
        0 < den <= 16,
        num <= 16,
    ensures
        r == spec_within_scaled_range(a, b, range, num, den),
{
    let d2 = dist_sq(a, b);
    proof {
        assert(den * den <= 256 && num * num <= 256) by (nonlinear_arith)
            requires 0 < den <= 16, num <= 16;
        assert(range * range <= COORD_LIMIT * COORD_LIMIT) by (nonlinear_arith)
            requires 0 <= range <= COORD_LIMIT;
        assert((den * den) * d2 <= 256 * (8 * COORD_LIMIT * COORD_LIMIT)) by (nonlinear_arith)
            requires den * den <= 256, 0 <= d2 <= 8 * COORD_LIMIT * COORD_LIMIT;
        assert((num * num) * (range * range) <= 256 * (COORD_LIMIT * COORD_LIMIT))
            by (nonlinear_arith)
            requires num * num <= 256, 0 <= range * range <= COORD_LIMIT * COORD_LIMIT;
    }
    den * den * d2 < num * num * (range * range)
}

/// Strict axis-aligned bounding-box overlap: both boxes are centered on their
/// positions, and every half-extent boundary must strictly overlap, so boxes
/// that merely touch along an edge do not count. Stated on doubled
/// coordinates, which is exact for odd extents too.
pub open spec fn spec_aabb_overlap(pos1: Vec2, size1: Vec2, pos2: Vec2, size2: Vec2) -> bool {
    &&& 2 * pos1.x - size1.x < 2 * pos2.x + size2.x
    &&& 2 * pos1.x + size1.x > 2 * pos2.x - size2.x
    &&& 2 * pos1.y - size1.y < 2 * pos2.y + size2.y
    &&& 2 * pos1.y + size1.y > 2 * pos2.y - size2.y
}

pub fn aabb_overlap(pos1: Vec2, size1: Vec2, pos2: Vec2, size2: Vec2) -> (r: bool)
    requires
        pos1.bounded(),
        size1.extent(),
        pos2.bounded(),
        size2.extent(),
    ensures
        r == spec_aabb_overlap(pos1, size1, pos2, size2),
{
    (2 * pos1.x - size1.x < 2 * pos2.x + size2.x)
        && (2 * pos1.x + size1.x > 2 * pos2.x - size2.x)
        && (2 * pos1.y - size1.y < 2 * pos2.y + size2.y)
        && (2 * pos1.y + size1.y > 2 * pos2.y - size2.y)
}

} // verus!
