//! The knockback applicator: each resolved hit imparts a velocity impulse
//! along the normalized direction from the hit volume to the target. Exact
//! coincidence of the two positions is a no-op, never a crash, and impulses
//! are additive, so simultaneous hits compound.

use vstd::prelude::*;
use crate::geom::Vec2;
use crate::direction::{dir_scaled, spec_dir_scaled_x, spec_dir_scaled_y};
use crate::units::{COORD_LIMIT, VEL_LIMIT};

verus! {

/// Clamp to a symmetric interval.
pub open spec fn spec_clamp_vel(v: int) -> int {
    if v < -VEL_LIMIT {
        -VEL_LIMIT as int
    } else if v > VEL_LIMIT {
        VEL_LIMIT as int
    } else {
        v
    }
}

/// A velocity component within the machine bound.
pub open spec fn vel_bounded(v: Vec2) -> bool {
    &&& -VEL_LIMIT <= v.x <= VEL_LIMIT
    &&& -VEL_LIMIT <= v.y <= VEL_LIMIT
}

/// Add the impulse `direction(hit -> target) * knockback` to the target's
/// velocity, clamping each component to the velocity bound. When the two
/// positions coincide the direction is undefined and the call is a no-op.
pub fn apply_knockback(velocity: &mut Vec2, hit_pos: Vec2, target_pos: Vec2, knockback: u64)
    requires
        vel_bounded(*old(velocity)),
        hit_pos.bounded(),
        target_pos.bounded(),
        knockback <= COORD_LIMIT,
    ensures
        vel_bounded(*final(velocity)),
        final(velocity).x == spec_clamp_vel(
            old(velocity).x + spec_dir_scaled_x(hit_pos, target_pos, knockback)),
        final(velocity).y == spec_clamp_vel(
            old(velocity).y + spec_dir_scaled_y(hit_pos, target_pos, knockback)),
        hit_pos == target_pos ==> *final(velocity) == *old(velocity),
    {
        let impulse = dir_scaled(hit_pos, target_pos, knockback);
        let nx = velocity.x + impulse.x;
        let ny = velocity.y + impulse.y;
        velocity.x = if nx < -VEL_LIMIT {
            -VEL_LIMIT
        } else if nx > VEL_LIMIT {
            VEL_LIMIT
        } else {
            nx
        };
        velocity.y = if ny < -VEL_LIMIT {
            -VEL_LIMIT
        } else if ny > VEL_LIMIT {
            VEL_LIMIT
        } else {
            ny
        };
    }

} // verus!
