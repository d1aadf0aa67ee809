//! Normalized-direction arithmetic on integers: a verified square root gives
//! the distance between two points, and a direction scaled to a magnitude is
//! computed component-wise as `delta * magnitude / distance`, rounded toward
//! zero. Exact coincidence of the two points yields the zero vector, never a
//! division by zero.

use vstd::prelude::*;
use crate::geom::{Vec2, dist_sq, spec_dist_sq};
use crate::units::COORD_LIMIT;

verus! {

/// The integer square root: the largest `r` with `r * r <= n`.
pub open spec fn sqrt_floor(n: nat) -> nat
    decreases n,
{
    if n == 0 {
        0
    } else {
        let r = sqrt_floor((n - 1) as nat);
        if (r + 1) * (r + 1) <= n {
            (r + 1) as nat
        } else {
            r
        }
    }
}

pub proof fn lemma_sqrt_floor_bounds(n: nat)
    ensures
        sqrt_floor(n) * sqrt_floor(n) <= n,
        n < (sqrt_floor(n) + 1) * (sqrt_floor(n) + 1),
    decreases n,
{
    if n > 0 {
        let r = sqrt_floor((n - 1) as nat);
        lemma_sqrt_floor_bounds((n - 1) as nat);
        if (r + 1) * (r + 1) <= n {
            assert(sqrt_floor(n) == r + 1);
            assert(n < (r + 1 + 1) * (r + 1 + 1)) by (nonlinear_arith)
                requires n - 1 < (r + 1) * (r + 1), r >= 0;
        } else {
            assert(sqrt_floor(n) == r);
            assert(r * r <= n);
        }
    } else {
        assert(sqrt_floor(n) == 0);
        assert(n < (sqrt_floor(n) + 1) * (sqrt_floor(n) + 1)) by (nonlinear_arith)
            requires n == 0, sqrt_floor(n) == 0;
    }
}

/// The integer square root is the only value between the two square bounds.
pub proof fn lemma_sqrt_floor_unique(n: nat, r: nat)
    requires
        r * r <= n,
        n < (r + 1) * (r + 1),
    ensures
        r == sqrt_floor(n),
{
    let s = sqrt_floor(n);
    lemma_sqrt_floor_bounds(n);
    if r < s {
        assert((r + 1) * (r + 1) <= s * s) by (nonlinear_arith)
            requires r + 1 <= s;
    }
    if s < r {
        assert((s + 1) * (s + 1) <= r * r) by (nonlinear_arith)
            requires s + 1 <= r;
    }
}

/// Binary-search integer square root.
pub fn isqrt(n: u64) -> (r: u64)
    ensures
        r == sqrt_floor(n as nat),
        r * r <= n,
        n < (r + 1) * (r + 1),
{
    let mut lo: u64 = 0;
    let mut hi: u64 = if n < 0xFFFF_FFFF {
        n
    } else {
        0xFFFF_FFFF
    };
    proof {
        if n < 0xFFFF_FFFF {
            assert(n < (n + 1) * (n + 1)) by (nonlinear_arith);
        }
        assert(0xFFFF_FFFFu64 * 0xFFFF_FFFFu64 < 0xFFFF_FFFF_FFFF_FFFFu64) by (nonlinear_arith);
    }
    while lo < hi
        invariant
            lo <= hi,
            hi <= 0xFFFF_FFFF,
            lo * lo <= n,
            n < (hi + 1) * (hi + 1),
        decreases hi - lo,
    {
        let mid = lo + (hi - lo + 1) / 2;
        proof {
            assert(lo < mid <= hi);
            assert(mid * mid <= 0xFFFF_FFFFu64 * 0xFFFF_FFFFu64) by (nonlinear_arith)
                requires mid <= 0xFFFF_FFFFu64;
        }
        if mid * mid <= n {
            lo = mid;
        } else {
            hi = mid - 1;
        }
    }
    proof {
        lemma_sqrt_floor_unique(n as nat, lo as nat);
    }
    lo
}

/// Truncating (toward-zero) signed division by a positive divisor.
pub open spec fn spec_div_trunc(a: int, b: int) -> int {
    if a >= 0 {
        a / b
    } else {
        -((-a) / b)
    }
}

/// The x component of the direction from `from` to `to`, normalized and
/// scaled to `mag`, rounded toward zero; zero when the points coincide.
pub open spec fn spec_dir_scaled_x(from: Vec2, to: Vec2, mag: u64) -> int {
    let dist = sqrt_floor(spec_dist_sq(from, to) as nat);
    if dist == 0 {
        0
    } else {
        spec_div_trunc((to.x - from.x) * mag, dist as int)
    }
}

/// The y component of the scaled direction; see `spec_dir_scaled_x`.
pub open spec fn spec_dir_scaled_y(from: Vec2, to: Vec2, mag: u64) -> int {
    let dist = sqrt_floor(spec_dist_sq(from, to) as nat);
    if dist == 0 {
        0
    } else {
        spec_div_trunc((to.y - from.y) * mag, dist as int)
    }
}

/// One signed component `delta * mag / dist`, rounded toward zero, given
/// `delta * delta <= d2` and `dist = sqrt_floor(d2) >= 1`; the result never
/// exceeds `mag` in magnitude.
fn scale_component(delta: i64, mag: u64, dist: u64, Ghost(d2): Ghost<u64>) -> (c: i64)
    requires
        -2 * COORD_LIMIT <= delta <= 2 * COORD_LIMIT,
        mag <= COORD_LIMIT,
        delta * delta <= d2,
        dist == sqrt_floor(d2 as nat),
        dist >= 1,
    ensures
        c == spec_div_trunc(delta * mag, dist as int),
        -mag <= c <= mag,
{
    let abs_delta: u64 = if delta >= 0 {
        delta as u64
    } else {
        (-delta) as u64
    };
    proof {
        lemma_sqrt_floor_bounds(d2 as nat);
        assert(abs_delta * abs_delta == delta * delta) by (nonlinear_arith)
            requires abs_delta == if delta >= 0 { delta as int } else { -(delta as int) };
        assert(abs_delta <= dist) by (nonlinear_arith)
            requires
                abs_delta * abs_delta <= d2,
                d2 < (dist + 1) * (dist + 1),
                abs_delta >= 0,
                dist >= 0;
        assert(abs_delta * mag <= dist * mag) by (nonlinear_arith)
            requires abs_delta <= dist, mag >= 0;
        assert(abs_delta * mag <= 2 * COORD_LIMIT * COORD_LIMIT) by (nonlinear_arith)
            requires 0 <= abs_delta <= 2 * COORD_LIMIT, mag <= COORD_LIMIT;
        assert(abs_delta * mag / dist as int <= mag) by (nonlinear_arith)
            requires dist >= 1, 0 <= abs_delta * mag <= dist * mag;
        if delta < 0 {
            assert(abs_delta * mag == -(delta * mag)) by (nonlinear_arith)
                requires delta < 0, abs_delta == -(delta as int);
        }
    }
    let comp: u64 = abs_delta * mag / dist;
    if delta >= 0 {
        comp as i64
    } else {
        -(comp as i64)
    }
}

/// The direction from `from` to `to` scaled to magnitude `mag`, exact
/// integer normalization. Coincident points give the zero vector.
pub fn dir_scaled(from: Vec2, to: Vec2, mag: u64) -> (v: Vec2)
    requires
        from.bounded(),
        to.bounded(),
        mag <= COORD_LIMIT,
    ensures
        v.x == spec_dir_scaled_x(from, to, mag),
        v.y == spec_dir_scaled_y(from, to, mag),
        -mag <= v.x <= mag,
        -mag <= v.y <= mag,
        v.bounded(),
        from == to ==> v.spec_is_zero(),
{
    let d2 = dist_sq(from, to);
    if d2 == 0 {
        proof {
            assert(sqrt_floor(0) == 0);
        }
        return Vec2 { x: 0, y: 0 };
    }
    let dist = isqrt(d2);
    proof {
        if dist == 0 {
            lemma_sqrt_floor_bounds(d2 as nat);
        }
        let dx = to.x - from.x;
        let dy = to.y - from.y;
        assert(dx * dx <= d2 && dy * dy <= d2) by (nonlinear_arith)
            requires
                d2 == (from.x - to.x) * (from.x - to.x)
                    + (from.y - to.y) * (from.y - to.y),
                dx == to.x - from.x,
                dy == to.y - from.y;
    }
    let x = scale_component(to.x - from.x, mag, dist, Ghost(d2));
    let y = scale_component(to.y - from.y, mag, dist, Ghost(d2));
    proof {
        if from == to {
            assert((from.x - to.x) * (from.x - to.x) + (from.y - to.y) * (from.y - to.y)
                == 0) by (nonlinear_arith)
                requires from.x == to.x, from.y == to.y;
            assert(spec_dist_sq(from, to) == 0);
        }
    }
    Vec2 { x, y }
}

} // verus!
