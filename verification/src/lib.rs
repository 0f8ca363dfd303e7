//! The decision core of a Monte-Carlo path tracer.
//!
//! Every number that the renderer works with is an IEEE-754 double. What can
//! be done with doubles without rounding (ordering, negation, clamping,
//! truncation to a byte) is done here on their bit patterns, and every
//! decision that the renderer takes on them is stated and proved: which root
//! of the ray-sphere quadratic is a hit, which hit is the nearest, what a
//! material does with a ray, when a path ends, and where a pixel lies in the
//! image. Arithmetic that rounds is the caller's: it hands its results in as
//! scalars.

pub mod hittable;
pub mod integrator;
pub mod material;
pub mod ray;
pub mod render;
pub mod scalar;
pub mod sphere;
pub mod vec3;
