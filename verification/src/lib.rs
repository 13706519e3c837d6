//! A Monte-Carlo path tracer over fixed-point arithmetic.
//!
//! Scalars are signed 64-bit fixed-point numbers with a scale of
//! 4096 units per 1.0, so every arithmetic step has an exact
//! integer meaning that the contracts state over `int`.
//!
//! The world is a list of spheres, each carrying a material
//! (diffuse, metallic or refractive); a camera maps image-plane
//! coordinates to rays, and the integrator follows each ray through
//! scatter events until its depth budget runs out or it escapes to
//! the sky gradient.
use vstd::prelude::*;

pub mod camera;
pub mod fx;
pub mod hit;
pub mod material;
pub mod ray;
pub mod rng;
pub mod sphere;
pub mod trace;
pub mod vec;

verus! {

/// Largest coordinate numerator the scene accepts: 2048 in scalar
/// value. Sphere centers, radii, ray origins and ray directions stay
/// within it, which keeps the intersection arithmetic inside `i64`.
pub const COORD_MAX: i64 = 0x80_0000;

/// Largest parametric distance the intersection window accepts:
/// 512 in scalar value.
pub const TIME_MAX: i64 = 0x20_0000;

/// Rejected scene configurations, raised at construction so that a
/// malformed scene fails before any rendering work begins.
#[derive(Clone, Copy, Debug, PartialEq, Eq, Structural)]
pub enum BuildError {
    /// A metal's fuzz lies outside `[0, 1)`.
    InvalidFuzz,
    /// A sphere's radius has zero magnitude.
    InvalidRadius,
    /// A refractive index is not positive.
    InvalidEta,
    /// A camera's basis is degenerate: the view direction has zero
    /// length, the up vector is parallel to it, or a derived basis
    /// vector leaves its bounds.
    DegenerateCamera,
}

} // verus!
