//! Rays: an origin with a direction, parameterized by a scalar
//! distance along the direction.
use vstd::prelude::*;

verus! {

use crate::fx::fits_i64;
use crate::fx::smul;
use crate::vec::Vec3;

#[derive(Clone, Copy, Debug, PartialEq, Eq, Structural)]
pub struct Ray {
    pub origin: Vec3,
    pub direction: Vec3,
}

/// The point at parametric distance `t` along a ray, componentwise.
pub open spec fn at_s(r: Ray, t: int) -> Vec3 {
    Vec3 {
        x: (r.origin.x + smul(r.direction.x as int, t)) as i64,
        y: (r.origin.y + smul(r.direction.y as int, t)) as i64,
        z: (r.origin.z + smul(r.direction.z as int, t)) as i64,
    }
}

impl Ray {
    pub fn new(origin: Vec3, direction: Vec3) -> (r: Ray)
        ensures
            r == (Ray { origin, direction }),
    {
        Ray { origin, direction }
    }

    /// `origin + t * direction`. The direction need not be unit
    /// length; its magnitude scales `t`.
    pub fn at(&self, t: i64) -> (p: Vec3)
        requires
            fits_i64(smul(self.direction.x as int, t as int)),
            fits_i64(smul(self.direction.y as int, t as int)),
            fits_i64(smul(self.direction.z as int, t as int)),
            fits_i64(self.origin.x + smul(self.direction.x as int, t as int)),
            fits_i64(self.origin.y + smul(self.direction.y as int, t as int)),
            fits_i64(self.origin.z + smul(self.direction.z as int, t as int)),
        ensures
            p == at_s(*self, t as int),
    {
        self.origin.add(self.direction.scale(t))
    }
}

} // verus!
