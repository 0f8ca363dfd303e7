//! Spheres.

use crate::hittable::{HitRecord, Hittable};
use crate::material::Material;
use crate::scalar::{lemma_negation_reverses_order, Scalar, Value};
use crate::vec3::Vec3;
use vstd::prelude::*;

verus! {

/// A sphere and its material.
#[derive(Clone, Copy, Debug, PartialEq, Eq, Structural)]
pub struct Sphere {
    pub center: Vec3,
    pub radius: Scalar,
    pub material: Material,
}

/// What the arithmetic of a ray `o + t·d` against a sphere of center `C` and
/// radius `r` gives, before anything is decided.
///
/// With `a = d·d`, `b = 2·d·(o − C)` and `c = (o − C)·(o − C) − r²`:
/// `discriminant` is `b² − 4ac`, `t` is the near root `(−b − √Δ) / (2a)`,
/// `point` is the ray at `t`, `normal` is `(point − C)` at unit length, which
/// points out of the sphere, and `facing` is `d · normal`.
#[derive(Clone, Copy, Debug, PartialEq, Eq, Structural)]
pub struct Probe {
    pub discriminant: Scalar,
    pub t: Scalar,
    pub point: Vec3,
    pub normal: Vec3,
    pub facing: Scalar,
}

impl Probe {
    /// Whether the near root is an intersection within `[t_min, t_max]`: the
    /// discriminant is not negative and `t_min <= t <= t_max`.
    pub open spec fn hits(self, t_min: Scalar, t_max: Scalar) -> bool {
        &&& Value::zero().at_most(self.discriminant@)
        &&& t_min.at_most(self.t)
        &&& self.t.at_most(t_max)
    }

    /// Whether the outward normal points along the ray, so that the ray hits
    /// the surface from inside: `facing > 0`.
    pub open spec fn from_inside(self) -> bool {
        Value::zero().below(self.facing@)
    }

    /// The normal turned against the ray.
    pub open spec fn oriented_normal(self) -> Vec3 {
        if self.from_inside() {
            self.normal.negated()
        } else {
            self.normal
        }
    }

    /// The dot product of the ray's direction with the oriented normal:
    /// negating the normal negates the product.
    pub open spec fn oriented_facing(self) -> Scalar {
        if self.from_inside() {
            self.facing.negated()
        } else {
            self.facing
        }
    }
}

impl Sphere {
    pub fn new(center: Vec3, radius: Scalar, material: Material) -> (s: Sphere)
        ensures
            s == (Sphere { center, radius, material }),
    {
        Sphere { center, radius, material }
    }
}

impl Hittable for Sphere {
    type Probe = Probe;

    /// A hit if the probe's near root lies within the interval, with the
    /// probe's point, its normal turned against the ray, and the sphere's
    /// material.
    open spec fn hit_of(&self, probe: &Probe, t_min: Scalar, t_max: Scalar) -> Option<HitRecord> {
        if probe.hits(t_min, t_max) {
            Some(
                HitRecord {
                    point: probe.point,
                    normal: probe.oriented_normal(),
                    t: probe.t,
                    material: self.material,
                },
            )
        } else {
            None
        }
    }

    /// Decides whether the ray behind `probe` hits the sphere within
    /// `[t_min, t_max]`.
    ///
    /// Only the near root is tried: a ray whose near root lies outside the
    /// interval misses, wherever the far root lies. The normal of a hit is the
    /// outward normal, negated if the ray comes from inside.
    fn hit(&self, probe: &Probe, t_min: Scalar, t_max: Scalar) -> (hit: Option<HitRecord>) {
        let normal = if probe.facing.gt(Scalar::zero()) {
            probe.normal.neg()
        } else {
            probe.normal
        };
        if probe.discriminant.ge(Scalar::zero()) && probe.t.ge(t_min) && probe.t.le(t_max) {
            Some(HitRecord { point: probe.point, normal, t: probe.t, material: self.material })
        } else {
            None
        }
    }
}

/// A root outside `[t_min, t_max]` is no hit, whatever the discriminant.
pub proof fn lemma_miss_outside_interval(sphere: Sphere, probe: Probe, t_min: Scalar, t_max: Scalar)
    requires
        !(t_min.at_most(probe.t) && probe.t.at_most(t_max)),
    ensures
        sphere.hit_of(&probe, t_min, t_max) is None,
{
}

/// The normal of a hit faces the incoming ray: the dot product of the ray's
/// direction with it is never above zero, and where it is a number it is at
/// most zero.
pub proof fn lemma_normal_faces_ray(probe: Probe)
    ensures
        !Value::zero().below(probe.oriented_facing()@),
        !probe.facing.nan() ==> probe.oriented_facing()@.at_most(Value::zero()),
{
    if probe.from_inside() {
        lemma_negation_reverses_order(probe.facing, probe.facing);
    }
}

} // verus!
