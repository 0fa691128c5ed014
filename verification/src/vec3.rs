use vstd::prelude::*;
use crate::math::{FORCE_LIMIT, POS_LIMIT};

verus! {

/// A point or displacement in world space, held in sub-units
/// (`math::SCALE` sub-units per world unit).
#[derive(Clone, Copy, PartialEq, Eq, Structural, Debug)]
pub struct Vec3 {
    pub x: i64,
    pub y: i64,
    pub z: i64,
}

/// A force vector, in force sub-units: the product of two sub-unit
/// scalars, so one world unit of force is `SCALE * SCALE` force sub-units.
#[derive(Clone, Copy, PartialEq, Eq, Structural, Debug)]
pub struct Force {
    pub x: i128,
    pub y: i128,
    pub z: i128,
}

impl Vec3 {
    pub fn new(x: i64, y: i64, z: i64) -> (v: Vec3)
        ensures
            v == (Vec3 { x, y, z }),
    {
        Vec3 { x, y, z }
    }
}

impl Force {
    /// The zero force.
    pub fn zero() -> (f: Force)
        ensures
            f.x == 0 && f.y == 0 && f.z == 0,
    {
        Force { x: 0, y: 0, z: 0 }
    }
}

/// Every coordinate within the admitted world volume.
pub open spec fn vec3_in_bounds(v: Vec3) -> bool {
    &&& -POS_LIMIT <= v.x <= POS_LIMIT
    &&& -POS_LIMIT <= v.y <= POS_LIMIT
    &&& -POS_LIMIT <= v.z <= POS_LIMIT
}

/// The mathematical value of a force vector.
pub open spec fn force_val(f: Force) -> (int, int, int) {
    (f.x as int, f.y as int, f.z as int)
}

pub open spec fn triple_add(a: (int, int, int), b: (int, int, int)) -> (int, int, int) {
    (a.0 + b.0, a.1 + b.1, a.2 + b.2)
}

pub open spec fn triple_scale(n: int, a: (int, int, int)) -> (int, int, int) {
    (n * a.0, n * a.1, n * a.2)
}

/// Every coordinate of `a` within `b` in magnitude.
pub open spec fn triple_bounded(a: (int, int, int), b: int) -> bool {
    &&& -b <= a.0 <= b
    &&& -b <= a.1 <= b
    &&& -b <= a.2 <= b
}

/// Every force rule of this crate keeps one contribution within
/// `FORCE_LIMIT` on each coordinate.
pub open spec fn force_in_limit(a: (int, int, int)) -> bool {
    triple_bounded(a, FORCE_LIMIT as int)
}

} // verus!
