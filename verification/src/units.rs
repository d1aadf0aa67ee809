//! Fixed-point conventions and the global bounds that keep every arithmetic
//! step of the combat pipeline inside machine integers.

use vstd::prelude::*;

verus! {

/// Scale of all dimensionless fractions: a crit chance of `250` is 25%, a
/// damage multiplier of `1500` is 1.5x.
pub const PERMILLE: u64 = 1000;

/// Damage, health and armor are stored in thousandths of a unit, so `5_000`
/// is 5.0 points of damage.
pub const MILLI: u64 = 1000;

/// Upper bound on any damage, health or armor amount (in thousandths).
pub const AMOUNT_LIMIT: u64 = 0x100_0000_0000;

/// Upper bound on any timer duration, timestamp or time step.
pub const DURATION_LIMIT_MS: u64 = 0x100_0000_0000;

/// Upper bound on the magnitude of a position coordinate, a box extent, a
/// range or a knockback magnitude.
pub const COORD_LIMIT: i64 = 0x10_0000;

/// Upper bound on the magnitude of a velocity component.
pub const VEL_LIMIT: i64 = 0x100_0000_0000;

/// Upper bound on a single simulation tick's time step (ten seconds).
pub const TICK_LIMIT_MS: u64 = 10000;

} // verus!
