//! Fixed-point conventions and the machine limits the engine works under.
//!
//! Lengths are in micro-units, time in milliseconds, speeds in micro-units
//! per millisecond.  The limits below are generous for a game world (the
//! demo scene spans a few units) and are chosen so that every product the
//! systems form fits its machine integer.

use vstd::prelude::*;

verus! {

/// Largest magnitude a world coordinate may have: 800 world units.
/// Squared differences of coordinates then still fit in `i64`.
pub const COORD_LIMIT: i64 = 800_000_000;

/// Largest magnitude a component of a stored projectile direction may
/// have: the difference of two world coordinates.
pub const DIR_LIMIT: i64 = 1_600_000_000;

/// Largest speed: 1000 world units per second.
pub const SPEED_LIMIT: i64 = 1_000_000;

/// Largest elapsed time a single tick may carry, in milliseconds.
pub const DT_LIMIT: u64 = 1_000_000_000;

/// Largest duration a countdown timer may be configured with, in
/// milliseconds (about 31 years).
pub const DURATION_LIMIT: u64 = 1_000_000_000_000;

/// A projectile strikes a target when their positions are closer than
/// 0.2 world units.
pub const HIT_RADIUS: i64 = 200_000;

/// The square of `HIT_RADIUS`; collisions compare squared distances.
pub const HIT_RADIUS_SQ: i64 = 40_000_000_000;

/// True when a mathematical integer fits in an `i64`.
pub open spec fn fits_i64(x: int) -> bool {
    i64::MIN <= x <= i64::MAX
}

} // verus!
