//! Spheres and their ray intersection.
//!
//! Intersection solves the half-b form of the quadratic
//! `|O + tD - C|^2 = r^2` over fixed-point scalars and returns the
//! first root strictly inside the window, with the hit record's
//! normal oriented against the incoming ray. A negative radius
//! flips the outward normal, the hollow-shell trick for glass.
use vstd::prelude::*;

verus! {

use crate::BuildError;
use crate::COORD_MAX;
use crate::TIME_MAX;
use crate::fx::fits_i64;
use crate::fx::fsqrt;
use crate::fx::fx_div;
use crate::fx::fx_mul;
use crate::fx::fx_sqrt;
use crate::fx::lemma_tdiv_abs_le;
use crate::fx::sdiv;
use crate::fx::smul;
use crate::hit::HitRecord;
use crate::material::Material;
use crate::material::material_wf;
use crate::ray::Ray;
use crate::ray::at_s;
use crate::vec::DOT_ARG_MAX;
use crate::vec::Vec3;
use crate::vec::bounded;
use crate::vec::dot_s;
use crate::vec::lemma_dot_abs_le;
use crate::vec::lemma_dot_self_nonneg;
use crate::vec::lemma_smul_neg;

#[derive(Clone, Copy, Debug)]
pub struct Sphere {
    pub center: Vec3,
    pub radius: i64,
    pub material: Material,
}

/// The construction-time invariant of a sphere: bounded center and
/// radius, nonzero radius magnitude, well-formed material.
pub open spec fn sphere_wf(s: Sphere) -> bool {
    &&& bounded(s.center, COORD_MAX as int)
    &&& -COORD_MAX <= s.radius <= COORD_MAX
    &&& s.radius != 0
    &&& material_wf(s.material)
}

/// A ray the intersection arithmetic accepts.
pub open spec fn ray_ok(r: Ray) -> bool {
    &&& bounded(r.origin, COORD_MAX as int)
    &&& bounded(r.direction, COORD_MAX as int)
}

/// The quadratic coefficient `a = D . D`.
pub open spec fn qa_s(r: Ray) -> int {
    dot_s(r.direction, r.direction)
}

/// The half coefficient `half_b = D . (O - C)`.
pub open spec fn qhalf_b_s(s: Sphere, r: Ray) -> int {
    smul(r.direction.x as int, r.origin.x - s.center.x) + smul(
        r.direction.y as int,
        r.origin.y - s.center.y,
    ) + smul(r.direction.z as int, r.origin.z - s.center.z)
}

/// The constant coefficient `c = (O - C) . (O - C) - r^2`.
pub open spec fn qc_s(s: Sphere, r: Ray) -> int {
    smul(r.origin.x - s.center.x, r.origin.x - s.center.x) + smul(
        r.origin.y - s.center.y,
        r.origin.y - s.center.y,
    ) + smul(r.origin.z - s.center.z, r.origin.z - s.center.z) - smul(
        s.radius as int,
        s.radius as int,
    )
}

/// The discriminant `half_b^2 - a c`.
pub open spec fn qdelta_s(s: Sphere, r: Ray) -> int {
    smul(qhalf_b_s(s, r), qhalf_b_s(s, r)) - smul(qa_s(r), qc_s(s, r))
}

/// The smaller quadratic root `(-half_b - sqrt(delta)) / a`.
pub open spec fn root1_s(s: Sphere, r: Ray) -> int {
    sdiv(-qhalf_b_s(s, r) - fsqrt(qdelta_s(s, r)), qa_s(r))
}

/// The larger quadratic root `(-half_b + sqrt(delta)) / a`.
pub open spec fn root2_s(s: Sphere, r: Ray) -> int {
    sdiv(-qhalf_b_s(s, r) + fsqrt(qdelta_s(s, r)), qa_s(r))
}

/// The parametric distance at which the sphere reports a hit inside
/// the open window `(tmin, tmax)`: the first qualifying root in
/// increasing order, none for a degenerate direction or a negative
/// discriminant.
pub open spec fn hit_t_s(s: Sphere, r: Ray, tmin: int, tmax: int) -> Option<int> {
    if qa_s(r) == 0 {
        None
    } else if qdelta_s(s, r) < 0 {
        None
    } else if tmin < root1_s(s, r) && root1_s(s, r) < tmax {
        Some(root1_s(s, r))
    } else if tmin < root2_s(s, r) && root2_s(s, r) < tmax {
        Some(root2_s(s, r))
    } else {
        None
    }
}

/// One component of the outward normal `(P - C) / radius`, written
/// with a positive divisor in both radius signs.
pub open spec fn out_normal_xs(s: Sphere, r: Ray, t: int) -> int {
    if s.radius > 0 {
        sdiv(at_s(r, t).x - s.center.x, s.radius as int)
    } else {
        sdiv(s.center.x - at_s(r, t).x, -(s.radius as int))
    }
}

pub open spec fn out_normal_ys(s: Sphere, r: Ray, t: int) -> int {
    if s.radius > 0 {
        sdiv(at_s(r, t).y - s.center.y, s.radius as int)
    } else {
        sdiv(s.center.y - at_s(r, t).y, -(s.radius as int))
    }
}

pub open spec fn out_normal_zs(s: Sphere, r: Ray, t: int) -> int {
    if s.radius > 0 {
        sdiv(at_s(r, t).z - s.center.z, s.radius as int)
    } else {
        sdiv(s.center.z - at_s(r, t).z, -(s.radius as int))
    }
}

/// The outward normal's components stay within the coordinate bound;
/// the record constructor refuses the hit otherwise, so a degenerate
/// value never spreads.
pub open spec fn normal_ok(s: Sphere, r: Ray, t: int) -> bool {
    &&& -COORD_MAX <= out_normal_xs(s, r, t) <= COORD_MAX
    &&& -COORD_MAX <= out_normal_ys(s, r, t) <= COORD_MAX
    &&& -COORD_MAX <= out_normal_zs(s, r, t) <= COORD_MAX
}

/// The ray struck the outer surface: its direction opposes the
/// outward normal.
pub open spec fn front_face_s(s: Sphere, r: Ray, t: int) -> bool {
    smul(r.direction.x as int, out_normal_xs(s, r, t)) + smul(
        r.direction.y as int,
        out_normal_ys(s, r, t),
    ) + smul(r.direction.z as int, out_normal_zs(s, r, t)) < 0
}

/// `rec` is exactly the record of the hit of `r` on `s` at `t`.
pub open spec fn is_record_of(rec: HitRecord, s: Sphere, r: Ray, t: int) -> bool {
    &&& rec.t == t
    &&& rec.position == at_s(r, t)
    &&& rec.front_face == front_face_s(s, r, t)
    &&& rec.normal.x == if front_face_s(s, r, t) {
        out_normal_xs(s, r, t)
    } else {
        -out_normal_xs(s, r, t)
    }
    &&& rec.normal.y == if front_face_s(s, r, t) {
        out_normal_ys(s, r, t)
    } else {
        -out_normal_ys(s, r, t)
    }
    &&& rec.normal.z == if front_face_s(s, r, t) {
        out_normal_zs(s, r, t)
    } else {
        -out_normal_zs(s, r, t)
    }
    &&& rec.material == s.material
}

impl Sphere {
    /// Rejects a radius of zero magnitude; a negative radius is
    /// legitimate and inverts the surface normal.
    pub fn new(center: Vec3, radius: i64, material: Material) -> (r: Result<Self, BuildError>)
        requires
            bounded(center, COORD_MAX as int),
            -COORD_MAX <= radius <= COORD_MAX,
            material_wf(material),
        ensures
            r is Ok <==> radius != 0,
            r is Ok ==> r->Ok_0 == (Sphere { center, radius, material }),
            r is Err ==> r->Err_0 == BuildError::InvalidRadius,
    {
        if radius == 0 {
            Err(BuildError::InvalidRadius)
        } else {
            Ok(Self { center, radius, material })
        }
    }

    /// Builds the hit record once the parametric distance of the hit
    /// is known. Returns nothing exactly when the outward normal
    /// leaves its bounds (a numeric degeneracy), and otherwise a
    /// record whose normal opposes the ray: the front-face invariant
    /// holds by construction.
    pub fn hit_record(&self, ray: &Ray, t: i64) -> (r: Option<HitRecord>)
        requires
            sphere_wf(*self),
            ray_ok(*ray),
            0 <= t <= TIME_MAX,
        ensures
            r is Some <==> normal_ok(*self, *ray, t as int),
            r is Some ==> is_record_of(r->Some_0, *self, *ray, t as int),
            r is Some ==> bounded(r->Some_0.normal, COORD_MAX as int),
            r is Some ==> dot_s(ray.direction, r->Some_0.normal) <= 0,
            r is Some ==> r->Some_0.t == t,
    {
        proof {
            lemma_at_fits(*ray, t as int);
        }
        let position = ray.at(t);
        let out_n: Vec3 = if self.radius > 0 {
            let m = position.sub(self.center);
            proof {
                lemma_out_normal_fits(m, self.radius as int);
            }
            m.div(self.radius)
        } else {
            let m = self.center.sub(position);
            proof {
                lemma_out_normal_fits(m, -(self.radius as int));
            }
            m.div(-self.radius)
        };
        if out_n.x > COORD_MAX || out_n.x < -COORD_MAX || out_n.y > COORD_MAX || out_n.y
            < -COORD_MAX || out_n.z > COORD_MAX || out_n.z < -COORD_MAX {
            return None;
        }
        let d_on: i64 = ray.direction.dot(out_n);
        let (front_face, normal) = if d_on < 0 {
            (true, out_n)
        } else {
            proof {
                lemma_smul_neg(ray.direction.x as int, out_n.x as int);
                lemma_smul_neg(ray.direction.y as int, out_n.y as int);
                lemma_smul_neg(ray.direction.z as int, out_n.z as int);
            }
            (false, out_n.neg())
        };
        Some(
            HitRecord {
                position,
                normal,
                t,
                front_face,
                material: self.material,
            },
        )
    }

    /// The closest intersection of `ray` with this sphere strictly
    /// inside `(tmin, tmax)`, as [`hit_t_s`] states, with its record.
    pub fn hit(&self, ray: &Ray, tmin: i64, tmax: i64) -> (r: Option<HitRecord>)
        requires
            sphere_wf(*self),
            ray_ok(*ray),
            0 <= tmin,
            tmax <= TIME_MAX,
        ensures
            r is Some <==> (hit_t_s(*self, *ray, tmin as int, tmax as int) is Some && normal_ok(
                *self,
                *ray,
                hit_t_s(*self, *ray, tmin as int, tmax as int)->Some_0,
            )),
            r is Some ==> {
                let t = hit_t_s(*self, *ray, tmin as int, tmax as int)->Some_0;
                &&& r->Some_0.t == t
                &&& tmin < r->Some_0.t < tmax
                &&& is_record_of(r->Some_0, *self, *ray, t)
                &&& bounded(r->Some_0.normal, COORD_MAX as int)
                &&& dot_s(ray.direction, r->Some_0.normal) <= 0
            },
    {
        let oc = ray.origin.sub(self.center);
        proof {
            lemma_dot_self_nonneg(ray.direction);
            lemma_dot_abs_le(ray.direction, ray.direction, 0x80_0000, 0x80_0000, 0x4_0000_0000);
            lemma_dot_abs_le(ray.direction, oc, 0x80_0000, 0x100_0000, 0x8_0000_0000);
            lemma_dot_abs_le(oc, oc, 0x100_0000, 0x100_0000, 0x10_0000_0000);
            crate::fx::lemma_smul_fits(
                self.radius as int,
                self.radius as int,
                0x80_0000,
                0x80_0000,
                0x4_0000_0000,
            );
        }
        let a: i64 = ray.direction.length_squared();
        if a == 0 {
            return None;
        }
        let half_b: i64 = ray.direction.dot(oc);
        let c: i64 = oc.length_squared() - fx_mul(self.radius, self.radius);
        proof {
            crate::fx::lemma_smul_fits(
                half_b as int,
                half_b as int,
                0x18_0000_0000,
                0x18_0000_0000,
                0x2400_0000_0000_0000,
            );
            crate::fx::lemma_smul_fits(
                qa_s(*ray),
                c as int,
                0xC_0000_0000,
                0x34_0000_0000,
                0x2700_0000_0000_0000,
            );
        }
        let delta: i64 = fx_mul(half_b, half_b) - fx_mul(a, c);
        if delta < 0 {
            return None;
        }
        let sq: i64 = fx_sqrt(delta);
        proof {
            crate::fx::lemma_abs_mul_le(delta as int, 4096, 0x4B00_0000_0000_0000, 4096);
            crate::fx::lemma_sq_le(sq as int, 0x40_0000_0000);
            lemma_root_fits(-(half_b as int) - sq as int, a as int);
            lemma_root_fits(-(half_b as int) + sq as int, a as int);
        }
        let t1: i64 = fx_div(0 - half_b - sq, a);
        let t2: i64 = fx_div(0 - half_b + sq, a);
        if tmin < t1 && t1 < tmax {
            self.hit_record(ray, t1)
        } else if tmin < t2 && t2 < tmax {
            self.hit_record(ray, t2)
        } else {
            None
        }
    }
}

/// The products `t * direction` of a windowed distance along a
/// bounded ray fit, as does the translated position.
proof fn lemma_at_fits(r: Ray, t: int)
    requires
        ray_ok(r),
        0 <= t <= TIME_MAX,
    ensures
        fits_i64(smul(r.direction.x as int, t)),
        fits_i64(smul(r.direction.y as int, t)),
        fits_i64(smul(r.direction.z as int, t)),
        fits_i64(r.origin.x + smul(r.direction.x as int, t)),
        fits_i64(r.origin.y + smul(r.direction.y as int, t)),
        fits_i64(r.origin.z + smul(r.direction.z as int, t)),
        -0x1_0080_0000 <= r.origin.x + smul(r.direction.x as int, t) <= 0x1_0080_0000,
        -0x1_0080_0000 <= r.origin.y + smul(r.direction.y as int, t) <= 0x1_0080_0000,
        -0x1_0080_0000 <= r.origin.z + smul(r.direction.z as int, t) <= 0x1_0080_0000,
{
    crate::fx::lemma_smul_fits(r.direction.x as int, t, 0x80_0000, 0x20_0000, 0x1_0000_0000);
    crate::fx::lemma_smul_fits(r.direction.y as int, t, 0x80_0000, 0x20_0000, 0x1_0000_0000);
    crate::fx::lemma_smul_fits(r.direction.z as int, t, 0x80_0000, 0x20_0000, 0x1_0000_0000);
}

/// The outward normal's division fits a 64-bit value for any nonzero
/// radius magnitude.
proof fn lemma_out_normal_fits(m: Vec3, rad: int)
    requires
        bounded(m, 0x2_0000_0000),
        0 < rad <= COORD_MAX,
    ensures
        fits_i64(sdiv(m.x as int, rad)),
        fits_i64(sdiv(m.y as int, rad)),
        fits_i64(sdiv(m.z as int, rad)),
{
    crate::fx::lemma_sdiv_fits(m.x as int, rad, 0x2_0000_0000, 0x2000_0000_0000);
    crate::fx::lemma_sdiv_fits(m.y as int, rad, 0x2_0000_0000, 0x2000_0000_0000);
    crate::fx::lemma_sdiv_fits(m.z as int, rad, 0x2_0000_0000, 0x2000_0000_0000);
}

/// A quadratic root's division fits a 64-bit value.
proof fn lemma_root_fits(num: int, a: int)
    requires
        a >= 1,
        -0x58_0000_0000 <= num <= 0x58_0000_0000,
    ensures
        fits_i64(sdiv(num, a)),
{
    crate::fx::lemma_sdiv_fits(num, a, 0x58_0000_0000, 0x58_000_0000_0000);
}

} // verus!
