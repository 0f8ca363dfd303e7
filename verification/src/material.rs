//! Materials: what a surface emits, and what becomes of a ray that meets it.

use crate::hittable::HitRecord;
use crate::ray::Ray;
use crate::scalar::{Scalar, Value};
use crate::vec3::Vec3;
use vstd::prelude::*;

verus! {

/// A ray that a surface sends on, and the factor by which each colour channel
/// of its contribution is multiplied.
#[derive(Clone, Copy, Debug, PartialEq, Eq, Structural)]
pub struct Scatter {
    pub ray: Ray,
    pub attenuation: Vec3,
}

/// A mirror, blurred by `fuzz`.
#[derive(Clone, Copy, Debug, PartialEq, Eq, Structural)]
pub struct Reflective {
    pub albedo: Vec3,
    pub fuzz: Scalar,
}

/// A matte surface.
#[derive(Clone, Copy, Debug, PartialEq, Eq, Structural)]
pub struct Diffuse {
    pub albedo: Vec3,
}

/// A source of constant radiance.
#[derive(Clone, Copy, Debug, PartialEq, Eq, Structural)]
pub struct Light {
    pub albedo: Vec3,
    pub intensity: Scalar,
}

/// A transparent medium with refractive index `index`.
#[derive(Clone, Copy, Debug, PartialEq, Eq, Structural)]
pub struct Dielectric {
    pub albedo: Vec3,
    pub index: Scalar,
}

/// The materials that a surface can have.
#[derive(Clone, Copy, Debug, PartialEq, Eq, Structural)]
pub enum Material {
    Diffuse(Diffuse),
    Reflective(Reflective),
    Light(Light),
    Dielectric(Dielectric),
}

/// What a surface emits: nothing, or `albedo` scaled by `intensity`.
#[derive(Clone, Copy, Debug, PartialEq, Eq, Structural)]
pub enum Emission {
    Dark,
    Radiant { albedo: Vec3, intensity: Scalar },
}

/// The way a ray takes at the surface of a dielectric.
#[derive(Clone, Copy, Debug, PartialEq, Eq, Structural)]
pub enum Bend {
    /// The ray is mirrored at the surface.
    Reflect,
    /// The ray passes the surface from the side that the normal points to:
    /// along the normal its direction has `ratio * cos - cos_refracted`.
    RefractFront,
    /// The ray passes the surface from the other side: along the normal its
    /// direction has `ratio * cos + cos_refracted`.
    RefractBack,
}

/// The ray that leaves the point of `hit` in `direction`, attenuated by
/// `albedo`.
pub open spec fn scattered(hit: HitRecord, direction: Vec3, albedo: Vec3) -> Scatter {
    Scatter { ray: Ray { origin: hit.point, direction }, attenuation: albedo }
}

impl Reflective {
    pub fn new(albedo: Vec3, fuzz: Scalar) -> (m: Reflective)
        ensures
            m == (Reflective { albedo, fuzz }),
    {
        Reflective { albedo, fuzz }
    }

    /// Always scatters. `direction` is the direction of the incoming ray
    /// mirrored at the normal, plus `fuzz` times a random unit vector.
    pub fn scatter(&self, hit: &HitRecord, direction: Vec3) -> (s: Option<Scatter>)
        ensures
            s == Some(scattered(*hit, direction, self.albedo)),
    {
        Some(Scatter { ray: Ray::new(hit.point, direction), attenuation: self.albedo })
    }
}

impl Diffuse {
    pub fn new(albedo: Vec3) -> (m: Diffuse)
        ensures
            m == (Diffuse { albedo }),
    {
        Diffuse { albedo }
    }

    /// Always scatters. `direction` is the normal plus a random unit vector.
    pub fn scatter(&self, hit: &HitRecord, direction: Vec3) -> (s: Option<Scatter>)
        ensures
            s == Some(scattered(*hit, direction, self.albedo)),
    {
        Some(Scatter { ray: Ray::new(hit.point, direction), attenuation: self.albedo })
    }
}

impl Light {
    pub fn new(albedo: Vec3, intensity: Scalar) -> (m: Light)
        ensures
            m == (Light { albedo, intensity }),
    {
        Light { albedo, intensity }
    }

    /// Never scatters: a ray that meets a light ends there.
    pub fn scatter(&self) -> (s: Option<Scatter>)
        ensures
            s is None,
    {
        None
    }

    /// The albedo, to be scaled by the intensity.
    pub fn emmited(&self) -> (e: Emission)
        ensures
            e == (Emission::Radiant { albedo: self.albedo, intensity: self.intensity }),
    {
        Emission::Radiant { albedo: self.albedo, intensity: self.intensity }
    }
}

impl Dielectric {
    /// The way of a ray at the surface, from the cosine of the angle between
    /// the reversed ray and the normal, `k = ratio² · sin²θ`, the reflectance
    /// and a number drawn uniformly from `[0, 1)`.
    ///
    /// With `k > 1` no refracted ray exists and the ray is reflected. Else it
    /// is reflected if the coin is below the reflectance, and refracted if
    /// not.
    pub open spec fn bent(cos_theta: Scalar, k: Scalar, reflectance: Scalar, coin: Scalar) -> Bend {
        if Value::one().below(k@) {
            Bend::Reflect
        } else if coin.below(reflectance) {
            Bend::Reflect
        } else if Value::zero().at_most(cos_theta@) {
            Bend::RefractFront
        } else {
            Bend::RefractBack
        }
    }

    pub fn new(albedo: Vec3, index: Scalar) -> (m: Dielectric)
        ensures
            m == (Dielectric { albedo, index }),
    {
        Dielectric { albedo, index }
    }

    /// Whether the ray enters the medium: `cos_theta > 0`. The refraction
    /// ratio is then `1 / index`, and `index` otherwise.
    pub fn entering(cos_theta: Scalar) -> (r: bool)
        ensures
            r == Value::zero().below(cos_theta@),
    {
        cos_theta.gt(Scalar::zero())
    }

    /// Whether the reflection is total: `k > 1`, for `k = ratio² · sin²θ`.
    /// The ray is then reflected whatever the reflectance and the coin, so
    /// that neither is needed.
    pub fn total_reflection(k: Scalar) -> (r: bool)
        ensures
            r == Value::one().below(k@),
            r ==> forall|cos_theta: Scalar, reflectance: Scalar, coin: Scalar|
                #[trigger] Dielectric::bent(cos_theta, k, reflectance, coin) == Bend::Reflect,
    {
        Scalar::one().lt(k)
    }

    /// The way of the ray at the surface.
    pub fn bend(cos_theta: Scalar, k: Scalar, reflectance: Scalar, coin: Scalar) -> (b: Bend)
        ensures
            b == Dielectric::bent(cos_theta, k, reflectance, coin),
    {
        if Scalar::one().lt(k) {
            Bend::Reflect
        } else if coin.lt(reflectance) {
            Bend::Reflect
        } else if cos_theta.ge(Scalar::zero()) {
            Bend::RefractFront
        } else {
            Bend::RefractBack
        }
    }

    /// Always scatters, with the albedo as attenuation whichever way the ray
    /// took. `direction` is the direction that belongs to that way.
    pub fn scatter(&self, hit: &HitRecord, direction: Vec3) -> (s: Option<Scatter>)
        ensures
            s == Some(scattered(*hit, direction, self.albedo)),
    {
        Some(Scatter { ray: Ray::new(hit.point, direction), attenuation: self.albedo })
    }
}

impl Material {
    /// The colour factor of the material.
    pub open spec fn albedo(self) -> Vec3 {
        match self {
            Material::Diffuse(m) => m.albedo,
            Material::Reflective(m) => m.albedo,
            Material::Light(m) => m.albedo,
            Material::Dielectric(m) => m.albedo,
        }
    }

    /// What the material emits: a light its radiance, any other nothing.
    pub fn emmited(&self) -> (e: Emission)
        ensures
            e == match *self {
                Material::Light(light) => Emission::Radiant {
                    albedo: light.albedo,
                    intensity: light.intensity,
                },
                _ => Emission::Dark,
            },
    {
        match self {
            Material::Light(light) => light.emmited(),
            _ => Emission::Dark,
        }
    }

    /// What becomes of a ray at `hit`: a light absorbs it, every other
    /// material sends it on in `direction`, attenuated by its albedo.
    pub fn scatter(&self, hit: &HitRecord, direction: Vec3) -> (s: Option<Scatter>)
        ensures
            s == match *self {
                Material::Light(_) => None,
                _ => Some(scattered(*hit, direction, self.albedo())),
            },
    {
        match self {
            Material::Diffuse(m) => m.scatter(hit, direction),
            Material::Reflective(m) => m.scatter(hit, direction),
            Material::Light(m) => m.scatter(),
            Material::Dielectric(m) => m.scatter(hit, direction),
        }
    }
}

/// A matte or mirroring surface whose albedo is at most 1 in every channel
/// attenuates by at most 1 in every channel: it adds no energy to a ray.
pub proof fn lemma_scatter_adds_no_energy(material: Material, hit: HitRecord, direction: Vec3)
    requires
        material is Diffuse || material is Reflective,
        material.albedo().bounded_by(Value::one()),
    ensures
        scattered(hit, direction, material.albedo()).attenuation.bounded_by(Value::one()),
{
}

} // verus!
