//! Integer 3-vectors for positions, velocities and forces.

use vstd::prelude::*;

verus! {

/// A point or direction in world space, in thousandths of a world unit.
#[derive(Clone, Copy, Debug, PartialEq, Eq, Structural)]
pub struct Vec3Milli {
    pub x: i64,
    pub y: i64,
    pub z: i64,
}

/// The zero vector, for spec-level entity templates.
pub open spec fn zero3() -> Vec3Milli {
    Vec3Milli { x: 0, y: 0, z: 0 }
}

impl Vec3Milli {
    /// Builds the vector `(x, y, z)`.
    pub fn new(x: i64, y: i64, z: i64) -> (v: Vec3Milli)
        ensures
            v.x == x && v.y == y && v.z == z,
    {
        Vec3Milli { x, y, z }
    }

    /// The zero vector.
    pub fn zero() -> (v: Vec3Milli)
        ensures
            v.x == 0 && v.y == 0 && v.z == 0,
    {
        Vec3Milli { x: 0, y: 0, z: 0 }
    }
}

} // verus!
