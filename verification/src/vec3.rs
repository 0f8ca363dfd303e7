//! Triples of scalars: points, directions and colours alike.

use crate::scalar::{Scalar, Value};
use vstd::prelude::*;

verus! {

/// Three scalars. The same type serves as a point, a direction and an RGB
/// colour.
#[derive(Clone, Copy, Debug, PartialEq, Eq, Structural)]
pub struct Vec3 {
    pub x: Scalar,
    pub y: Scalar,
    pub z: Scalar,
}

impl Vec3 {
    /// The vector with every component negated.
    pub open spec fn negated(self) -> Vec3 {
        Vec3 { x: self.x.negated(), y: self.y.negated(), z: self.z.negated() }
    }

    /// Whether every component is a number no greater than `bound`.
    pub open spec fn bounded_by(self, bound: Value) -> bool {
        self.x@.at_most(bound) && self.y@.at_most(bound) && self.z@.at_most(bound)
    }

    /// Black, and the origin: three positive zeros.
    pub open spec fn origin() -> Vec3 {
        Vec3 { x: Scalar { bits: 0 }, y: Scalar { bits: 0 }, z: Scalar { bits: 0 } }
    }

    pub fn new(x: Scalar, y: Scalar, z: Scalar) -> (v: Vec3)
        ensures
            v == (Vec3 { x, y, z }),
    {
        Vec3 { x, y, z }
    }

    /// Black, and the origin.
    pub fn zero() -> (v: Vec3)
        ensures
            v == Vec3::origin(),
    {
        Vec3 { x: Scalar::zero(), y: Scalar::zero(), z: Scalar::zero() }
    }

    /// `-self`, exactly.
    pub fn neg(self) -> (v: Vec3)
        ensures
            v == self.negated(),
    {
        Vec3 { x: self.x.neg(), y: self.y.neg(), z: self.z.neg() }
    }
}

/// Whether a point drawn from the cube `[-1, 1]³` is kept as a sample of the
/// unit ball: its length is below 1. A point that is kept is scaled to unit
/// length, which gives a direction uniform on the sphere; any other is drawn
/// again.
pub fn in_unit_ball(length: Scalar) -> (kept: bool)
    ensures
        kept == length@.below(Value::one()),
{
    length.lt(Scalar::one())
}

} // verus!
