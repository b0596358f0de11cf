//! Three-dimensional vectors in fixed point (micro-units per axis).

use vstd::prelude::*;

use crate::math::lemma_square_bound;
use crate::units::{fits_i64, COORD_LIMIT, DIR_LIMIT};

verus! {

/// A point or displacement in the game world, one `i64` of micro-units
/// per axis.
#[derive(Clone, Copy, Debug, PartialEq, Eq, Structural)]
pub struct Vec3 {
    pub x: i64,
    pub y: i64,
    pub z: i64,
}

/// True when every coordinate of a world position is within `COORD_LIMIT`.
pub open spec fn in_world(v: Vec3) -> bool {
    &&& -COORD_LIMIT <= v.x <= COORD_LIMIT
    &&& -COORD_LIMIT <= v.y <= COORD_LIMIT
    &&& -COORD_LIMIT <= v.z <= COORD_LIMIT
}

/// True when every component of a displacement is within `DIR_LIMIT`.
pub open spec fn dir_in_range(v: Vec3) -> bool {
    &&& -DIR_LIMIT <= v.x <= DIR_LIMIT
    &&& -DIR_LIMIT <= v.y <= DIR_LIMIT
    &&& -DIR_LIMIT <= v.z <= DIR_LIMIT
}

/// The squared Euclidean length of `v`, as a mathematical integer.
pub open spec fn spec_mag_sq(v: Vec3) -> int {
    v.x * v.x + v.y * v.y + v.z * v.z
}

/// The squared Euclidean distance between `a` and `b`.
pub open spec fn spec_dist_sq(a: Vec3, b: Vec3) -> int {
    spec_mag_sq(spec_sub(a, b))
}

/// The componentwise difference `a - b`, as mathematical integers.
pub open spec fn spec_sub(a: Vec3, b: Vec3) -> Vec3 {
    Vec3 { x: (a.x - b.x) as i64, y: (a.y - b.y) as i64, z: (a.z - b.z) as i64 }
}

/// The componentwise sum `a + b`, as mathematical integers.
pub open spec fn spec_add(a: Vec3, b: Vec3) -> Vec3 {
    Vec3 { x: (a.x + b.x) as i64, y: (a.y + b.y) as i64, z: (a.z + b.z) as i64 }
}

impl Vec3 {
    /// Builds a vector from its three coordinates.
    pub fn new(x: i64, y: i64, z: i64) -> (r: Vec3)
        ensures
            r == (Vec3 { x, y, z }),
    {
        Vec3 { x, y, z }
    }

    /// Componentwise difference.
    pub fn sub(self, o: Vec3) -> (r: Vec3)
        requires
            fits_i64(self.x - o.x),
            fits_i64(self.y - o.y),
            fits_i64(self.z - o.z),
        ensures
            r == spec_sub(self, o),
    {
        Vec3 { x: self.x - o.x, y: self.y - o.y, z: self.z - o.z }
    }

    /// Componentwise sum.
    pub fn add(self, o: Vec3) -> (r: Vec3)
        requires
            fits_i64(self.x + o.x),
            fits_i64(self.y + o.y),
            fits_i64(self.z + o.z),
        ensures
            r == spec_add(self, o),
    {
        Vec3 { x: self.x + o.x, y: self.y + o.y, z: self.z + o.z }
    }

    /// The squared length of a displacement whose components are within
    /// `DIR_LIMIT`; the result fits in an `i64` by the choice of limits.
    pub fn mag_sq(self) -> (r: i64)
        requires
            dir_in_range(self),
        ensures
            r == spec_mag_sq(self),
            0 <= r <= 3 * DIR_LIMIT * DIR_LIMIT,
    {
        proof {
            lemma_square_bound(self.x as int, DIR_LIMIT as int);
            lemma_square_bound(self.y as int, DIR_LIMIT as int);
            lemma_square_bound(self.z as int, DIR_LIMIT as int);
        }
        self.x * self.x + self.y * self.y + self.z * self.z
    }

    /// The squared distance between two world positions.
    pub fn dist_sq(self, o: Vec3) -> (r: i64)
        requires
            in_world(self),
            in_world(o),
        ensures
            r == spec_dist_sq(self, o),
            0 <= r <= 3 * DIR_LIMIT * DIR_LIMIT,
    {
        self.sub(o).mag_sq()
    }
}

} // verus!
