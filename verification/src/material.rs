//! Material scattering: diffuse (Lambertian), metallic (Metal) and
//! refractive (Glass) surfaces.
//!
//! `scatter` takes the incoming ray direction and the hit record and
//! yields an attenuation color together with the scattered
//! direction, or nothing when the bounce is absorbed or numerically
//! degenerate.
use vstd::prelude::*;

verus! {

use crate::BuildError;
use crate::COORD_MAX;
use crate::fx::FX_ONE;
use crate::fx::fits_i64;
use crate::fx::fsqrt;
use crate::fx::fx_div;
use crate::fx::fx_sqrt;
use crate::fx::lemma_tdiv_abs_le;
use crate::fx::sdiv;
use crate::fx::smul;
use crate::fx::tdiv;
use crate::hit::HitRecord;
use crate::rng::random_in_hemisphere;
use crate::rng::random_in_unit_sphere;
use crate::rng::random_unit;
use crate::vec::Vec3;
use crate::vec::bounded;
use crate::vec::dot_s;
use crate::vec::len_s;

/// The exact (unscaled) integer dot product of two vectors' numerators.
pub open spec fn dote_s(a: Vec3, b: Vec3) -> int {
    a.x * b.x + a.y * b.y + a.z * b.z
}

/// One component of the unnormalized mirror direction
/// `(n.n) d - 2 (d.n) n`, which reflects `d` about `n` exactly,
/// scaled by the squared magnitude of `n`.
pub open spec fn mirror_xs(d: Vec3, n: Vec3) -> int {
    dote_s(n, n) * d.x - 2 * dote_s(d, n) * n.x
}

pub open spec fn mirror_ys(d: Vec3, n: Vec3) -> int {
    dote_s(n, n) * d.y - 2 * dote_s(d, n) * n.y
}

pub open spec fn mirror_zs(d: Vec3, n: Vec3) -> int {
    dote_s(n, n) * d.z - 2 * dote_s(d, n) * n.z
}

/// One component of the returned reflection: the mirror direction
/// brought back to the working scale.
pub open spec fn reflect_xs(d: Vec3, n: Vec3) -> int {
    tdiv(mirror_xs(d, n), 16777216)
}

pub open spec fn reflect_ys(d: Vec3, n: Vec3) -> int {
    tdiv(mirror_ys(d, n), 16777216)
}

pub open spec fn reflect_zs(d: Vec3, n: Vec3) -> int {
    tdiv(mirror_zs(d, n), 16777216)
}

/// `v` is the reflection of `d` about `n`.
pub open spec fn is_reflect_of(v: Vec3, d: Vec3, n: Vec3) -> bool {
    &&& v.x == reflect_xs(d, n)
    &&& v.y == reflect_ys(d, n)
    &&& v.z == reflect_zs(d, n)
}

/// The attenuation a material applies to one bounce: the albedo for
/// the diffuse and metallic surfaces, white for glass, which does
/// not absorb color.
pub open spec fn attenuation_of(m: Material) -> Vec3 {
    match m {
        Material::Lambertian(l) => l.albedo,
        Material::Metal(mt) => mt.albedo,
        Material::Glass(_) => Vec3 { x: FX_ONE, y: FX_ONE, z: FX_ONE },
    }
}

/// A color with all channels in `[0, 1]`.
pub open spec fn color_ok(v: Vec3) -> bool {
    &&& 0 <= v.x <= FX_ONE
    &&& 0 <= v.y <= FX_ONE
    &&& 0 <= v.z <= FX_ONE
}

/// A point of the unit ball.
pub open spec fn in_ball(p: Vec3) -> bool {
    &&& bounded(p, FX_ONE as int)
    &&& len_s(p) < FX_ONE
}

/// One component of a vector after normalization.
pub open spec fn uhat_x(v: Vec3) -> int {
    sdiv(v.x as int, len_s(v))
}

pub open spec fn uhat_y(v: Vec3) -> int {
    sdiv(v.y as int, len_s(v))
}

pub open spec fn uhat_z(v: Vec3) -> int {
    sdiv(v.z as int, len_s(v))
}

/// The cosine of the angle between `-d` and `n`, both normalized.
pub open spec fn cos_theta_s(d: Vec3, n: Vec3) -> int {
    -(smul(uhat_x(d), uhat_x(n)) + smul(uhat_y(d), uhat_y(n)) + smul(uhat_z(d), uhat_z(n)))
}

/// Total internal reflection: the refraction coefficient exceeds one
/// and Snell's law has no solution at this angle, in the same
/// operation order the scatter code evaluates.
pub open spec fn tir_s(c: int, ct: int) -> bool {
    c > FX_ONE && smul(smul(FX_ONE - smul(ct, ct), c), c) > FX_ONE
}

/// One component of the refracted direction's perpendicular part.
pub open spec fn perp_xs(d: Vec3, n: Vec3, c: int) -> int {
    smul(uhat_x(d) + smul(uhat_x(n), cos_theta_s(d, n)), c)
}

pub open spec fn perp_ys(d: Vec3, n: Vec3, c: int) -> int {
    smul(uhat_y(d) + smul(uhat_y(n), cos_theta_s(d, n)), c)
}

pub open spec fn perp_zs(d: Vec3, n: Vec3, c: int) -> int {
    smul(uhat_z(d) + smul(uhat_z(n), cos_theta_s(d, n)), c)
}

/// `v` is the refraction of `d` through the surface with normal `n`
/// at coefficient `c`, by the perpendicular/parallel decomposition of
/// Snell's law.
pub open spec fn is_refract_dir(v: Vec3, d: Vec3, n: Vec3, c: int) -> bool {
    let px = perp_xs(d, n, c);
    let py = perp_ys(d, n, c);
    let pz = perp_zs(d, n, c);
    let lsq = smul(px, px) + smul(py, py) + smul(pz, pz);
    let s = fsqrt(FX_ONE - lsq);
    &&& lsq <= FX_ONE
    &&& v.x == px - smul(uhat_x(n), s)
    &&& v.y == py - smul(uhat_y(n), s)
    &&& v.z == pz - smul(uhat_z(n), s)
}

/// The deterministic conditions under which the refraction scatter
/// gives up: a zero-length vector, a cosine out of range, or a
/// perpendicular part whose size leaves the unit ball. On any other
/// input, a scatter that chose the refraction branch succeeds.
pub open spec fn refract_blocked(d: Vec3, n: Vec3, c: int) -> bool {
    let ct = cos_theta_s(d, n);
    let px = perp_xs(d, n, c);
    let py = perp_ys(d, n, c);
    let pz = perp_zs(d, n, c);
    let lsq = smul(px, px) + smul(py, py) + smul(pz, pz);
    ||| len_s(d) == 0
    ||| len_s(n) == 0
    ||| ct > 8192
    ||| ct < -8192
    ||| !bounded(Vec3 { x: px as i64, y: py as i64, z: pz as i64 }, 16384)
    ||| lsq > FX_ONE
}

/// The exact dot product of two vectors within `m` is within `3 m^2`.
pub proof fn lemma_dote_bound(a: Vec3, b: Vec3, m: int)
    requires
        bounded(a, m),
        bounded(b, m),
        0 <= m,
    ensures
        -(3 * m * m) <= dote_s(a, b) <= 3 * m * m,
{
    assert(-(m * m) <= a.x * b.x <= m * m) by (nonlinear_arith)
        requires
            -m <= a.x <= m,
            -m <= b.x <= m,
            0 <= m,
    ;
    assert(-(m * m) <= a.y * b.y <= m * m) by (nonlinear_arith)
        requires
            -m <= a.y <= m,
            -m <= b.y <= m,
            0 <= m,
    ;
    assert(-(m * m) <= a.z * b.z <= m * m) by (nonlinear_arith)
        requires
            -m <= a.z <= m,
            -m <= b.z <= m,
            0 <= m,
    ;
    assert(3 * m * m == m * m + m * m + m * m) by (nonlinear_arith);
}

/// The law of reflection, exactly: the mirror direction's exact dot
/// product with the normal is the negation of the incoming
/// direction's, scaled by the normal's squared magnitude. For a unit
/// normal this is mirror symmetry, the angle of incidence equaling
/// the angle of reflection.
pub proof fn lemma_reflection_law(d: Vec3, n: Vec3)
    ensures
        mirror_xs(d, n) * n.x + mirror_ys(d, n) * n.y + mirror_zs(d, n) * n.z == -(dote_s(n, n)
            * dote_s(d, n)),
{
    let a = dote_s(n, n);
    let b = dote_s(d, n);
    lemma_mirror_term(a, b, d.x as int, n.x as int);
    lemma_mirror_term(a, b, d.y as int, n.y as int);
    lemma_mirror_term(a, b, d.z as int, n.z as int);
    assert(a * (d.x * n.x) + a * (d.y * n.y) + a * (d.z * n.z) == a * b) by (nonlinear_arith)
        requires
            b == d.x * n.x + d.y * n.y + d.z * n.z,
    ;
    assert(2 * b * (n.x * n.x) + 2 * b * (n.y * n.y) + 2 * b * (n.z * n.z) == 2 * b * a)
        by (nonlinear_arith)
        requires
            a == n.x * n.x + n.y * n.y + n.z * n.z,
    ;
    assert(a * b - 2 * b * a == -(a * b)) by (nonlinear_arith);
}

/// One component of the mirror identity, distributed.
proof fn lemma_mirror_term(a: int, b: int, dc: int, nc: int)
    ensures
        (a * dc - 2 * b * nc) * nc == a * (dc * nc) - 2 * b * (nc * nc),
{
    assert((a * dc - 2 * b * nc) * nc == a * (dc * nc) - 2 * b * (nc * nc)) by (nonlinear_arith);
}

/// The reflection of `in_direction` about `normal`: the exact mirror
/// direction `(n.n) d - 2 (d.n) n`, brought back to the working scale
/// with one rounding per component. Neither argument needs to be
/// normalized: the mirror formula is the textbook reflection scaled
/// by the normal's squared magnitude, and since a ray direction's
/// magnitude only rescales its parameter, the two point the same way;
/// for a unit normal they coincide.
pub fn reflect(in_direction: Vec3, normal: Vec3) -> (r: Vec3)
    requires
        bounded(in_direction, COORD_MAX as int),
        bounded(normal, COORD_MAX as int),
    ensures
        is_reflect_of(r, in_direction, normal),
        bounded(r, 0x4_0000_0000_0000),
{
    proof {
        lemma_dote_bound(normal, normal, COORD_MAX as int);
        lemma_dote_bound(in_direction, normal, COORD_MAX as int);
    }
    let nn: i128 = dote128(normal, normal);
    let dn: i128 = dote128(in_direction, normal);
    proof {
        lemma_mirror_bounds(nn as int, in_direction.x as int, normal.x as int, dn as int);
        lemma_mirror_bounds(nn as int, in_direction.y as int, normal.y as int, dn as int);
        lemma_mirror_bounds(nn as int, in_direction.z as int, normal.z as int, dn as int);
    }
    let rx: i64 = rescale(nn * (in_direction.x as i128) - 2 * dn * (normal.x as i128));
    let ry: i64 = rescale(nn * (in_direction.y as i128) - 2 * dn * (normal.y as i128));
    let rz: i64 = rescale(nn * (in_direction.z as i128) - 2 * dn * (normal.z as i128));
    Vec3 { x: rx, y: ry, z: rz }
}

/// The exact integer dot product, computed widely.
fn dote128(a: Vec3, b: Vec3) -> (r: i128)
    requires
        bounded(a, COORD_MAX as int),
        bounded(b, COORD_MAX as int),
    ensures
        r as int == dote_s(a, b),
        -0x1_0000_0000_0000 <= r <= 0x1_0000_0000_0000,
{
    proof {
        lemma_dote_bound(a, b, COORD_MAX as int);
        crate::fx::lemma_abs_mul_le(a.x as int, b.x as int, 0x80_0000, 0x80_0000);
        crate::fx::lemma_abs_mul_le(a.y as int, b.y as int, 0x80_0000, 0x80_0000);
        crate::fx::lemma_abs_mul_le(a.z as int, b.z as int, 0x80_0000, 0x80_0000);
    }
    (a.x as i128) * (b.x as i128) + (a.y as i128) * (b.y as i128) + (a.z as i128) * (b.z as i128)
}

/// Brings one mirror component back from the doubly scaled products.
fn rescale(m: i128) -> (r: i64)
    requires
        -0x180_0000_0000_0000_0000 <= m <= 0x180_0000_0000_0000_0000,
    ensures
        r as int == tdiv(m as int, 16777216),
        -0x1_8000_0000_0000 <= r <= 0x1_8000_0000_0000,
{
    proof {
        lemma_tdiv_abs_le(m as int, 16777216, 0x1_8000_0000_0000);
    }
    let q: i128 = m / 16777216i128;
    q as i64
}

/// Each mirror component, built from the two wide dot products, stays
/// inside the rescale bound.
proof fn lemma_mirror_bounds(nn: int, dc: int, nc: int, dn: int)
    requires
        -0x1_0000_0000_0000 <= nn <= 0x1_0000_0000_0000,
        -0x1_0000_0000_0000 <= dn <= 0x1_0000_0000_0000,
        -0x80_0000 <= dc <= 0x80_0000,
        -0x80_0000 <= nc <= 0x80_0000,
    ensures
        -0x80_0000_0000_0000_0000 <= nn * dc <= 0x80_0000_0000_0000_0000,
        -0x80_0000_0000_0000_0000 <= dn * nc <= 0x80_0000_0000_0000_0000,
        -0x180_0000_0000_0000_0000 <= nn * dc - 2 * (dn * nc) <= 0x180_0000_0000_0000_0000,
        -0x180_0000_0000_0000_0000 <= nn * dc - 2 * dn * nc <= 0x180_0000_0000_0000_0000,
{
    crate::fx::lemma_abs_mul_le(nn, dc, 0x1_0000_0000_0000, 0x80_0000);
    crate::fx::lemma_abs_mul_le(dn, nc, 0x1_0000_0000_0000, 0x80_0000);
    assert(2 * dn * nc == 2 * (dn * nc)) by (nonlinear_arith);
}

/// A diffuse surface: scatters into the hemisphere of the normal,
/// attenuating by its albedo.
#[derive(Clone, Copy, Debug)]
pub struct Lambertian {
    pub albedo: Vec3,
}

impl Lambertian {
    pub fn new(albedo: Vec3) -> (r: Self)
        requires
            color_ok(albedo),
        ensures
            r.albedo == albedo,
    {
        Self { albedo }
    }

    /// Ignores the incoming direction; the sample always lies on the
    /// normal's side.
    pub fn scatter(
        &self,
        in_direction: Vec3,
        hit_record: &HitRecord,
        rng: &mut rand::rngs::SmallRng,
    ) -> (r: Option<(Vec3, Vec3)>)
        requires
            bounded(hit_record.normal, COORD_MAX as int),
        ensures
            r is Some,
            r->Some_0.0 == self.albedo,
            dot_s(r->Some_0.1, hit_record.normal) >= 0,
            bounded(r->Some_0.1, FX_ONE as int),
            len_s(r->Some_0.1) < FX_ONE,
    {
        Some((self.albedo, random_in_hemisphere(hit_record.normal, rng)))
    }
}

/// A specular surface: mirrors the incoming direction, then perturbs
/// it by `fuzz` times a unit-ball sample to emulate roughness.
#[derive(Clone, Copy, Debug)]
pub struct Metal {
    pub albedo: Vec3,
    pub fuzz: i64,
}

impl Metal {
    /// Rejects a fuzz outside `[0, 1)` as an invalid configuration.
    pub fn new(fuzz: i64, albedo: Vec3) -> (r: Result<Self, BuildError>)
        requires
            color_ok(albedo),
        ensures
            r is Ok <==> 0 <= fuzz < FX_ONE,
            r is Ok ==> r->Ok_0 == (Metal { albedo, fuzz }),
            r is Err ==> r->Err_0 == BuildError::InvalidFuzz,
    {
        if fuzz < 0 || fuzz >= 4096 {
            Err(BuildError::InvalidFuzz)
        } else {
            Ok(Self { albedo, fuzz })
        }
    }

    /// With zero fuzz the result is the exact rescaled mirror
    /// direction; in general it is that direction plus `fuzz` times
    /// some unit-ball sample.
    pub fn scatter(
        &self,
        in_direction: Vec3,
        hit_record: &HitRecord,
        rng: &mut rand::rngs::SmallRng,
    ) -> (r: Option<(Vec3, Vec3)>)
        requires
            0 <= self.fuzz < FX_ONE,
            bounded(in_direction, COORD_MAX as int),
            bounded(hit_record.normal, COORD_MAX as int),
        ensures
            r is Some,
            r->Some_0.0 == self.albedo,
            self.fuzz == 0 ==> is_reflect_of(r->Some_0.1, in_direction, hit_record.normal),
            exists|p: Vec3|
                #[trigger] in_ball(p) && r->Some_0.1.x == reflect_xs(in_direction, hit_record.normal)
                    + smul(p.x as int, self.fuzz as int) && r->Some_0.1.y == reflect_ys(
                    in_direction,
                    hit_record.normal,
                ) + smul(p.y as int, self.fuzz as int) && r->Some_0.1.z == reflect_zs(
                    in_direction,
                    hit_record.normal,
                ) + smul(p.z as int, self.fuzz as int),
    {
        let reflected = reflect(in_direction, hit_record.normal);
        let pert = random_in_unit_sphere(rng);
        proof {
            crate::fx::lemma_smul_fits(pert.x as int, self.fuzz as int, 4096, 4096, 4096);
            crate::fx::lemma_smul_fits(pert.y as int, self.fuzz as int, 4096, 4096, 4096);
            crate::fx::lemma_smul_fits(pert.z as int, self.fuzz as int, 4096, 4096, 4096);
        }
        let dir = reflected.add(pert.scale(self.fuzz));
        proof {
            if self.fuzz == 0 {
                crate::fx::lemma_smul_zero(pert.x as int);
                crate::fx::lemma_smul_zero(pert.y as int);
                crate::fx::lemma_smul_zero(pert.z as int);
            }
            assert(in_ball(pert));
        }
        Some((self.albedo, dir))
    }
}

/// A refractive surface (glass): refracts by Snell's law or reflects,
/// the choice Fresnel-weighted by Schlick's approximation; above the
/// critical angle it always reflects. It never absorbs color.
#[derive(Clone, Copy, Debug)]
pub struct Glass {
    pub eta: i64,
}

impl Glass {
    /// Rejects a non-positive refractive index; the upper cap keeps
    /// the index inside the coordinate range the arithmetic covers.
    pub fn new(eta: i64) -> (r: Result<Self, BuildError>)
        ensures
            r is Ok <==> 0 < eta <= COORD_MAX,
            r is Ok ==> r->Ok_0 == (Glass { eta }),
            r is Err ==> r->Err_0 == BuildError::InvalidEta,
    {
        if eta <= 0 || eta > 0x80_0000 {
            Err(BuildError::InvalidEta)
        } else {
            Ok(Self { eta })
        }
    }

    /// The refraction coefficient this hit sees: entering the glass
    /// divides by the index, leaving multiplies by it. This assumes
    /// glass volumes never overlap, so a ray always passes between
    /// vacuum and this one material.
    pub open spec fn coeff_s(self, front_face: bool) -> int {
        if front_face {
            sdiv(FX_ONE as int, self.eta as int)
        } else {
            self.eta as int
        }
    }

    pub fn scatter(
        &self,
        in_direction: Vec3,
        hit_record: &HitRecord,
        rng: &mut rand::rngs::SmallRng,
    ) -> (r: Option<(Vec3, Vec3)>)
        requires
            0 < self.eta <= COORD_MAX,
            bounded(in_direction, COORD_MAX as int),
            bounded(hit_record.normal, COORD_MAX as int),
        ensures
            r is Some ==> r->Some_0.0 == (Vec3 { x: FX_ONE, y: FX_ONE, z: FX_ONE }),
            r is Some ==> is_reflect_of(r->Some_0.1, in_direction, hit_record.normal)
                || is_refract_dir(
                r->Some_0.1,
                in_direction,
                hit_record.normal,
                self.coeff_s(hit_record.front_face),
            ),
            len_s(in_direction) == 0 || len_s(hit_record.normal) == 0 ==> r is None,
            (len_s(in_direction) != 0 && len_s(hit_record.normal) != 0 && -8192 <= cos_theta_s(
                in_direction,
                hit_record.normal,
            ) <= 8192 && tir_s(
                self.coeff_s(hit_record.front_face),
                cos_theta_s(in_direction, hit_record.normal),
            )) ==> r is Some && is_reflect_of(r->Some_0.1, in_direction, hit_record.normal),
            r is None ==> refract_blocked(
                in_direction,
                hit_record.normal,
                self.coeff_s(hit_record.front_face),
            ),
    {
        let coefficient: i64 = if hit_record.front_face {
            proof {
                assert(16777216 * self.eta as int >= 16777216) by (nonlinear_arith)
                    requires
                        self.eta >= 1,
                ;
                lemma_tdiv_abs_le(16777216int, self.eta as int, 16777216int);
                crate::fx::lemma_div_at_least_one(16777216int, self.eta as int);
            }
            fx_div(4096, self.eta)
        } else {
            self.eta
        };
        let refracted = refract(coefficient, in_direction, hit_record.normal, rng);
        match refracted {
            Some(dir) => Some((Vec3 { x: 4096, y: 4096, z: 4096 }, dir)),
            None => None,
        }
    }
}

/// Reflects or refracts `in_direction` at a surface with `normal`,
/// for refraction coefficient `coefficient`. Total internal
/// reflection always reflects; otherwise a uniform draw against
/// Schlick's approximation picks between reflection and refraction.
/// Degenerate numerics (a zero-length vector, a cosine or a
/// perpendicular part out of range) yield `None` rather than a
/// corrupted direction.
pub fn refract(
    coefficient: i64,
    in_direction: Vec3,
    normal: Vec3,
    rng: &mut rand::rngs::SmallRng,
) -> (r: Option<Vec3>)
    requires
        0 < coefficient <= 0x100_0000,
        bounded(in_direction, COORD_MAX as int),
        bounded(normal, COORD_MAX as int),
    ensures
        len_s(in_direction) == 0 || len_s(normal) == 0 ==> r is None,
        r is Some ==> is_reflect_of(r->Some_0, in_direction, normal) || is_refract_dir(
            r->Some_0,
            in_direction,
            normal,
            coefficient as int,
        ),
        (len_s(in_direction) != 0 && len_s(normal) != 0 && -8192 <= cos_theta_s(
            in_direction,
            normal,
        ) <= 8192 && tir_s(coefficient as int, cos_theta_s(in_direction, normal))) ==> r is Some
            && is_reflect_of(r->Some_0, in_direction, normal),
        r is None ==> refract_blocked(in_direction, normal, coefficient as int),
{
    let ru: Vec3 = match in_direction.unify() {
        Some(a) => a,
        None => {
            return None;
        },
    };
    let nu: Vec3 = match normal.unify() {
        Some(b) => b,
        None => {
            return None;
        },
    };
    proof {
        lemma_unified_bounded(in_direction, ru);
        lemma_unified_bounded(normal, nu);
        crate::vec::lemma_dot_abs_le(ru, nu, 0x8_0000_0000, 0x8_0000_0000, 0x400_0000_0000_0000);
    }
    let ct: i64 = 0 - ru.dot(nu);
    if ct > 8192 || ct < -8192 {
        return None;
    }
    proof {
        crate::fx::lemma_smul_fits(ct as int, ct as int, 8192, 8192, 16384);
    }
    let cos2: i64 = crate::fx::fx_mul(ct, ct);
    proof {
        crate::fx::lemma_smul_fits(
            4096 - cos2 as int,
            coefficient as int,
            20480,
            0x100_0000,
            0x500_0000,
        );
    }
    let g1: i64 = crate::fx::fx_mul(4096 - cos2, coefficient);
    proof {
        crate::fx::lemma_smul_fits(
            g1 as int,
            coefficient as int,
            0x500_0000,
            0x100_0000,
            0x50_0000_0000,
        );
    }
    let g: i64 = crate::fx::fx_mul(g1, coefficient);
    if coefficient > 4096 && g > 4096 {
        return Some(reflect(in_direction, normal));
    }
    let reflect_probability: i64 = schlick(coefficient, ct);
    if random_unit(rng) < reflect_probability {
        Some(reflect(in_direction, normal))
    } else {
        // Snell's law, split into perpendicular and parallel parts.
        proof {
            lemma_perp_fits(ru, nu, ct as int, coefficient as int);
        }
        let r_perpendicular = ru.add(nu.scale(ct)).scale(coefficient);
        if r_perpendicular.x > 16384 || r_perpendicular.x < -16384 || r_perpendicular.y > 16384
            || r_perpendicular.y < -16384 || r_perpendicular.z > 16384 || r_perpendicular.z
            < -16384 {
            return None;
        }
        let lsq: i64 = r_perpendicular.length_squared();
        if lsq > 4096 {
            return None;
        }
        let s: i64 = fx_sqrt(4096 - lsq);
        proof {
            crate::fx::lemma_abs_mul_le(4096 - lsq as int, 4096, 4096, 4096);
            crate::fx::lemma_sq_le(s as int, 4096);
            lemma_par_fits(nu, s as int);
        }
        let r_parallel = nu.scale(s).neg();
        Some(r_parallel.add(r_perpendicular))
    }
}

/// Schlick's approximation of the Fresnel reflectance at this
/// coefficient and cosine: `r0 + (1 - r0) (1 - cos)^5` with
/// `r0 = ((1 - c) / (1 + c))^2`, in the operation order the code
/// evaluates.
pub open spec fn schlick_s(c: int, ct: int) -> int {
    let r0 = smul(sdiv(4096 - c, 4096 + c), sdiv(4096 - c, 4096 + c));
    let b = 4096 - ct;
    let b2 = smul(b, b);
    let b4 = smul(b2, b2);
    let b5 = smul(b4, b);
    r0 + smul(4096 - r0, b5)
}

/// Schlick's approximation, computed over fixed-point scalars.
fn schlick(coefficient: i64, ct: i64) -> (p: i64)
    requires
        0 < coefficient <= 0x100_0000,
        -8192 <= ct <= 8192,
    ensures
        p as int == schlick_s(coefficient as int, ct as int),
{
    proof {
        crate::fx::lemma_sdiv_big_divisor(
            4096 - coefficient as int,
            4096 + coefficient as int,
            0x100_0000,
        );
    }
    let q: i64 = fx_div(4096 - coefficient, 4096 + coefficient);
    proof {
        crate::fx::lemma_smul_fits(q as int, q as int, 0x100_0000, 0x100_0000, 0x10_0000_0000);
    }
    let r0: i64 = crate::fx::fx_mul(q, q);
    let omc: i64 = 4096 - ct;
    proof {
        crate::fx::lemma_smul_fits(omc as int, omc as int, 12288, 12288, 36864);
    }
    let p2: i64 = crate::fx::fx_mul(omc, omc);
    proof {
        crate::fx::lemma_smul_fits(p2 as int, p2 as int, 36864, 36864, 331776);
    }
    let p4: i64 = crate::fx::fx_mul(p2, p2);
    proof {
        crate::fx::lemma_smul_fits(p4 as int, omc as int, 331776, 12288, 995328);
    }
    let p5: i64 = crate::fx::fx_mul(p4, omc);
    proof {
        crate::fx::lemma_smul_fits(
            4096 - r0 as int,
            p5 as int,
            0x10_0000_1000,
            0x10_0000,
            0x4000_0000_0000,
        );
    }
    r0 + crate::fx::fx_mul(4096 - r0, p5)
}

/// A normalized vector's components stay within the original's
/// magnitude scaled up by one, since the length is at least one.
proof fn lemma_unified_bounded(v: Vec3, u: Vec3)
    requires
        bounded(v, COORD_MAX as int),
        len_s(v) >= 1,
        u.x == sdiv(v.x as int, len_s(v)),
        u.y == sdiv(v.y as int, len_s(v)),
        u.z == sdiv(v.z as int, len_s(v)),
    ensures
        bounded(u, 0x8_0000_0000),
{
    let l = len_s(v);
    assert(-(0x8_0000_0000 * l) <= v.x as int * 4096 <= 0x8_0000_0000 * l) by (nonlinear_arith)
        requires
            -0x80_0000 <= v.x as int <= 0x80_0000,
            l >= 1,
    ;
    assert(-(0x8_0000_0000 * l) <= v.y as int * 4096 <= 0x8_0000_0000 * l) by (nonlinear_arith)
        requires
            -0x80_0000 <= v.y as int <= 0x80_0000,
            l >= 1,
    ;
    assert(-(0x8_0000_0000 * l) <= v.z as int * 4096 <= 0x8_0000_0000 * l) by (nonlinear_arith)
        requires
            -0x80_0000 <= v.z as int <= 0x80_0000,
            l >= 1,
    ;
    lemma_tdiv_abs_le(v.x as int * 4096, l, 0x8_0000_0000);
    lemma_tdiv_abs_le(v.y as int * 4096, l, 0x8_0000_0000);
    lemma_tdiv_abs_le(v.z as int * 4096, l, 0x8_0000_0000);
}

/// Fit bounds for the perpendicular part of the refraction.
proof fn lemma_perp_fits(ru: Vec3, nu: Vec3, ct: int, c: int)
    requires
        bounded(ru, 0x8_0000_0000),
        bounded(nu, 0x8_0000_0000),
        -8192 <= ct <= 8192,
        0 < c <= 0x100_0000,
    ensures
        fits_i64(smul(nu.x as int, ct)),
        fits_i64(smul(nu.y as int, ct)),
        fits_i64(smul(nu.z as int, ct)),
        fits_i64(ru.x + smul(nu.x as int, ct)),
        fits_i64(ru.y + smul(nu.y as int, ct)),
        fits_i64(ru.z + smul(nu.z as int, ct)),
        fits_i64(smul(ru.x + smul(nu.x as int, ct), c)),
        fits_i64(smul(ru.y + smul(nu.y as int, ct), c)),
        fits_i64(smul(ru.z + smul(nu.z as int, ct), c)),
{
    crate::fx::lemma_smul_fits(nu.x as int, ct, 0x8_0000_0000, 8192, 0x10_0000_0000);
    crate::fx::lemma_smul_fits(nu.y as int, ct, 0x8_0000_0000, 8192, 0x10_0000_0000);
    crate::fx::lemma_smul_fits(nu.z as int, ct, 0x8_0000_0000, 8192, 0x10_0000_0000);
    crate::fx::lemma_smul_fits(
        ru.x + smul(nu.x as int, ct),
        c,
        0x18_0000_0000,
        0x100_0000,
        0x1_8000_0000_0000,
    );
    crate::fx::lemma_smul_fits(
        ru.y + smul(nu.y as int, ct),
        c,
        0x18_0000_0000,
        0x100_0000,
        0x1_8000_0000_0000,
    );
    crate::fx::lemma_smul_fits(
        ru.z + smul(nu.z as int, ct),
        c,
        0x18_0000_0000,
        0x100_0000,
        0x1_8000_0000_0000,
    );
}

/// Fit bounds for the parallel part of the refraction, and the bound
/// that lets it join the perpendicular part.
proof fn lemma_par_fits(nu: Vec3, s: int)
    requires
        bounded(nu, 0x8_0000_0000),
        0 <= s <= 4096,
    ensures
        -0x8_0000_0000 <= smul(nu.x as int, s) <= 0x8_0000_0000,
        -0x8_0000_0000 <= smul(nu.y as int, s) <= 0x8_0000_0000,
        -0x8_0000_0000 <= smul(nu.z as int, s) <= 0x8_0000_0000,
{
    crate::fx::lemma_smul_fits(nu.x as int, s, 0x8_0000_0000, 4096, 0x8_0000_0000);
    crate::fx::lemma_smul_fits(nu.y as int, s, 0x8_0000_0000, 4096, 0x8_0000_0000);
    crate::fx::lemma_smul_fits(nu.z as int, s, 0x8_0000_0000, 4096, 0x8_0000_0000);
}

/// The closed set of surface behaviours, dispatched by variant.
#[derive(Clone, Copy, Debug)]
pub enum Material {
    Lambertian(Lambertian),
    Metal(Metal),
    Glass(Glass),
}

/// The construction-time invariant of each material.
pub open spec fn material_wf(m: Material) -> bool {
    match m {
        Material::Lambertian(l) => color_ok(l.albedo),
        Material::Metal(mt) => color_ok(mt.albedo) && 0 <= mt.fuzz < FX_ONE,
        Material::Glass(g) => 0 < g.eta <= COORD_MAX,
    }
}

impl Material {
    /// Given the incoming direction and the hit record, the
    /// attenuation color and scattered direction of this bounce, or
    /// `None` when the ray is absorbed.
    pub fn scatter(
        &self,
        in_direction: Vec3,
        hit_record: &HitRecord,
        rng: &mut rand::rngs::SmallRng,
    ) -> (r: Option<(Vec3, Vec3)>)
        requires
            material_wf(*self),
            bounded(in_direction, COORD_MAX as int),
            bounded(hit_record.normal, COORD_MAX as int),
        ensures
            r is Some ==> color_ok(r->Some_0.0),
            r is Some ==> r->Some_0.0 == attenuation_of(*self),
            self is Lambertian ==> r is Some && r->Some_0.0 == self->Lambertian_0.albedo && dot_s(
                r->Some_0.1,
                hit_record.normal,
            ) >= 0 && len_s(r->Some_0.1) < FX_ONE,
            self is Metal ==> r is Some && r->Some_0.0 == self->Metal_0.albedo && (
            self->Metal_0.fuzz == 0 ==> is_reflect_of(r->Some_0.1, in_direction, hit_record.normal)),
            self is Glass ==> {
                &&& r is Some ==> r->Some_0.0 == (Vec3 { x: FX_ONE, y: FX_ONE, z: FX_ONE })
                &&& r is Some ==> is_reflect_of(r->Some_0.1, in_direction, hit_record.normal)
                    || is_refract_dir(
                    r->Some_0.1,
                    in_direction,
                    hit_record.normal,
                    self->Glass_0.coeff_s(hit_record.front_face),
                )
                &&& (len_s(in_direction) != 0 && len_s(hit_record.normal) != 0 && -8192
                    <= cos_theta_s(in_direction, hit_record.normal) <= 8192 && tir_s(
                    self->Glass_0.coeff_s(hit_record.front_face),
                    cos_theta_s(in_direction, hit_record.normal),
                )) ==> r is Some && is_reflect_of(r->Some_0.1, in_direction, hit_record.normal)
                &&& r is None ==> refract_blocked(
                    in_direction,
                    hit_record.normal,
                    self->Glass_0.coeff_s(hit_record.front_face),
                )
            },
    {
        match self {
            Material::Lambertian(l) => l.scatter(in_direction, hit_record, rng),
            Material::Metal(m) => m.scatter(in_direction, hit_record, rng),
            Material::Glass(g) => g.scatter(in_direction, hit_record, rng),
        }
    }
}

} // verus!
