use vstd::prelude::*;
use crate::fixed::UNIT;

verus! {

/// A triple of fixed-point numbers: a point, a displacement, three angles or three
/// scale factors.
#[derive(Clone, Copy, Debug, PartialEq, Eq, Structural)]
pub struct Vec3 {
    pub x: i64,
    pub y: i64,
    pub z: i64,
}

impl Vec3 {
    pub open spec fn spec_zero() -> Vec3 {
        Vec3 { x: 0, y: 0, z: 0 }
    }

    pub open spec fn spec_one() -> Vec3 {
        Vec3 { x: UNIT, y: UNIT, z: UNIT }
    }

    pub fn new(x: i64, y: i64, z: i64) -> (v: Vec3)
        ensures
            v == (Vec3 { x, y, z }),
    {
        Vec3 { x, y, z }
    }

    /// The origin, and the displacement that moves nothing.
    pub fn zero() -> (v: Vec3)
        ensures
            v == Vec3::spec_zero(),
    {
        Vec3 { x: 0, y: 0, z: 0 }
    }

    /// The scale that changes nothing: one in each direction.
    pub fn one() -> (v: Vec3)
        ensures
            v == Vec3::spec_one(),
    {
        Vec3 { x: UNIT, y: UNIT, z: UNIT }
    }
}

} // verus!
