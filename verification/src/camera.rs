//! The camera: maps image-plane coordinates to world-space rays,
//! modeling field of view, aspect ratio, orientation and a thin-lens
//! aperture for depth of field.
//!
//! Construction takes the tangent of half the vertical field of
//! view; turning degrees into that tangent needs the machine's
//! trigonometry and stays with the caller.
use vstd::prelude::*;

verus! {

use crate::BuildError;
use crate::COORD_MAX;
use crate::fx::FX_ONE;
use crate::fx::lemma_smul_fits;
use crate::fx::lemma_sq_le;
use crate::fx::lemma_smul_zero;
use crate::fx::smul;
use crate::fx::sdiv;
use crate::rng::random_in_unit_disk;
use crate::ray::Ray;
use crate::vec::Vec3;
use crate::vec::bounded;
use crate::vec::dot_s;
use crate::vec::len_s;
use crate::vec::lemma_dot_abs_le;

/// A point of the quarter disk the lens sampler draws from.
pub open spec fn in_disk(p: Vec3) -> bool {
    &&& 0 <= p.x < FX_ONE
    &&& 0 <= p.y < FX_ONE
    &&& p.z == 0
    &&& len_s(p) < FX_ONE
}

#[derive(Clone, Copy, Debug)]
pub struct Camera {
    pub upper_left_corner: Vec3,
    pub horizontal: Vec3,
    pub vertical: Vec3,
    pub origin: Vec3,
    /// Orthonormal basis vectors of the image plane, kept unified up
    /// to rounding.
    pub u: Vec3,
    pub v: Vec3,
    pub lens_radius: i64,
}

/// What construction guarantees and `get_ray` relies on.
pub open spec fn cam_wf(c: Camera) -> bool {
    &&& bounded(c.origin, COORD_MAX as int)
    &&& bounded(c.u, 8192)
    &&& bounded(c.v, 8192)
    &&& bounded(c.upper_left_corner, 0x8_0000_0000)
    &&& bounded(c.horizontal, 0x8_0000_0000)
    &&& bounded(c.vertical, 0x8_0000_0000)
    &&& 0 <= c.lens_radius <= 0x8000
}

/// A frame whose rays always stay inside the scene's coordinate
/// bounds, whatever lens sample and image-plane coordinates in
/// `[0, 1]` are drawn: the camera sits within a quarter of the
/// coordinate range and the image-plane vectors within a thirty-
/// second of it.
pub open spec fn cam_in_scene(c: Camera) -> bool {
    &&& bounded(c.origin, 0x40_0000)
    &&& bounded(c.upper_left_corner, 0x10_0000)
    &&& bounded(c.horizontal, 0x10_0000)
    &&& bounded(c.vertical, 0x10_0000)
}

/// The view-back direction from the look-at point to the camera.
pub open spec fn cam_back(origin: Vec3, lookat: Vec3) -> Vec3 {
    crate::vec::sub_v(origin, lookat)
}

/// The basis vector `w`, the normalized view-back direction.
pub open spec fn cam_w(origin: Vec3, lookat: Vec3) -> Vec3 {
    crate::vec::unify_v(cam_back(origin, lookat))
}

/// The cross of the up vector with `w`, before normalization.
pub open spec fn cam_cr(origin: Vec3, lookat: Vec3, upwards: Vec3) -> Vec3 {
    crate::vec::cross_v(upwards, cam_w(origin, lookat))
}

/// The basis vector `u`.
pub open spec fn cam_u(origin: Vec3, lookat: Vec3, upwards: Vec3) -> Vec3 {
    crate::vec::unify_v(cam_cr(origin, lookat, upwards))
}

/// The basis vector `v = u x w`.
pub open spec fn cam_v(origin: Vec3, lookat: Vec3, upwards: Vec3) -> Vec3 {
    crate::vec::cross_v(cam_u(origin, lookat, upwards), cam_w(origin, lookat))
}

/// The deterministic guards of construction: the view direction and
/// the derived basis have nonzero length and stay in bounds.
pub open spec fn cam_ok(origin: Vec3, lookat: Vec3, upwards: Vec3) -> bool {
    &&& len_s(cam_back(origin, lookat)) != 0
    &&& bounded(cam_w(origin, lookat), 8192)
    &&& len_s(cam_cr(origin, lookat, upwards)) != 0
    &&& bounded(cam_u(origin, lookat, upwards), 8192)
    &&& bounded(cam_v(origin, lookat, upwards), 8192)
}

/// The built camera holds exactly the frame the parameters derive:
/// the focus distance is the distance to the look-at point, the
/// image-plane half extents come from the field-of-view tangent and
/// the aspect ratio, and the corner and span vectors follow from
/// them.
pub open spec fn cam_built(
    c: Camera,
    origin: Vec3,
    lookat: Vec3,
    upwards: Vec3,
    tan_half_fov: int,
    aspect_ratio: int,
    aperture: int,
) -> bool {
    let w = cam_w(origin, lookat);
    let u = cam_u(origin, lookat, upwards);
    let v = cam_v(origin, lookat, upwards);
    let focus = len_s(crate::vec::sub_v(lookat, origin));
    let half_width = smul(aspect_ratio, tan_half_fov);
    let half_vertical = crate::vec::scale_v(v, tan_half_fov);
    let half_horizontal = crate::vec::scale_v(u, half_width);
    let frame = crate::vec::add_v(crate::vec::add_v(w, half_vertical), half_horizontal);
    &&& c.origin == origin
    &&& c.u == u
    &&& c.v == v
    &&& c.upper_left_corner == crate::vec::sub_v(origin, crate::vec::scale_v(frame, focus))
    &&& c.horizontal == crate::vec::scale_v(half_horizontal, 2 * focus)
    &&& c.vertical == crate::vec::scale_v(half_vertical, 2 * focus)
    &&& c.lens_radius == aperture / 2
}

impl Camera {
    /// Derives the image-plane frame from the orientation, the
    /// tangent of half the vertical field of view, the aspect ratio
    /// and the aperture. The focus distance is the distance from the
    /// origin to the look-at point. A degenerate basis (zero-length
    /// view direction, up parallel to it, or a vector out of bounds)
    /// is rejected before any rendering work begins.
    pub fn new(
        origin: Vec3,
        lookat: Vec3,
        upwards: Vec3,
        tan_half_fov: i64,
        aspect_ratio: i64,
        aperture: i64,
    ) -> (r: Result<Camera, BuildError>)
        requires
            bounded(origin, COORD_MAX as int),
            bounded(lookat, COORD_MAX as int),
            bounded(upwards, COORD_MAX as int),
            0 < tan_half_fov <= 0x1_0000,
            0 < aspect_ratio <= 0x1_0000,
            0 <= aperture <= 0x1_0000,
        ensures
            r is Ok <==> cam_ok(origin, lookat, upwards),
            r is Err ==> r->Err_0 == BuildError::DegenerateCamera,
            r is Ok ==> cam_wf(r->Ok_0),
            r is Ok ==> cam_built(
                r->Ok_0,
                origin,
                lookat,
                upwards,
                tan_half_fov as int,
                aspect_ratio as int,
                aperture as int,
            ),
    {
        let diff = lookat.sub(origin);
        proof {
            lemma_dot_abs_le(diff, diff, 0x100_0000, 0x100_0000, 0x10_0000_0000);
            crate::fx::lemma_abs_mul_le(dot_s(diff, diff), 4096, 0x30_0000_0000, 4096);
            crate::vec::lemma_dot_self_nonneg(diff);
        }
        proof {
            crate::fx::lemma_fsqrt_bracket(dot_s(diff, diff));
        }
        let focus_distance = diff.length();
        proof {
            lemma_sq_le(focus_distance as int, 0x200_0000);
        }
        let back = origin.sub(lookat);
        let w: Vec3 = match back.unify() {
            Some(w) => w,
            None => {
                return Err(BuildError::DegenerateCamera);
            },
        };
        if w.x > 8192 || w.x < -8192 || w.y > 8192 || w.y < -8192 || w.z > 8192 || w.z < -8192 {
            return Err(BuildError::DegenerateCamera);
        }
        let cr = upwards.cross(w);
        proof {
            lemma_smul_fits(upwards.y as int, w.z as int, 0x80_0000, 8192, 0x100_0000);
            lemma_smul_fits(upwards.z as int, w.y as int, 0x80_0000, 8192, 0x100_0000);
            lemma_smul_fits(upwards.z as int, w.x as int, 0x80_0000, 8192, 0x100_0000);
            lemma_smul_fits(upwards.x as int, w.z as int, 0x80_0000, 8192, 0x100_0000);
            lemma_smul_fits(upwards.x as int, w.y as int, 0x80_0000, 8192, 0x100_0000);
            lemma_smul_fits(upwards.y as int, w.x as int, 0x80_0000, 8192, 0x100_0000);
        }
        let u: Vec3 = match cr.unify() {
            Some(u) => u,
            None => {
                return Err(BuildError::DegenerateCamera);
            },
        };
        if u.x > 8192 || u.x < -8192 || u.y > 8192 || u.y < -8192 || u.z > 8192 || u.z < -8192 {
            return Err(BuildError::DegenerateCamera);
        }
        let v = u.cross(w);
        if v.x > 8192 || v.x < -8192 || v.y > 8192 || v.y < -8192 || v.z > 8192 || v.z < -8192 {
            return Err(BuildError::DegenerateCamera);
        }
        proof {
            lemma_smul_fits(aspect_ratio as int, tan_half_fov as int, 0x1_0000, 0x1_0000, 0x10_0000);
            lemma_basis_scale_fits(v, tan_half_fov as int, 8192, 0x1_0000, 0x2_0000);
        }
        let half_height = tan_half_fov;
        let half_width = crate::fx::fx_mul(aspect_ratio, half_height);
        proof {
            lemma_basis_scale_fits(u, half_width as int, 8192, 0x10_0000, 0x20_0000);
        }
        let half_vertical = v.scale(half_height);
        let half_horizontal = u.scale(half_width);
        let frame = w.add(half_vertical).add(half_horizontal);
        proof {
            lemma_basis_scale_fits(frame, focus_distance as int, 0x24_0000, 0x200_0000, 0x4_8000_0000);
            lemma_basis_scale_fits(half_vertical, 2 * focus_distance as int, 0x2_0000, 0x400_0000, 0x8000_0000);
            lemma_basis_scale_fits(half_horizontal, 2 * focus_distance as int, 0x20_0000, 0x400_0000, 0x8_0000_0000);
        }
        let upper_left_corner = origin.sub(frame.scale(focus_distance));
        let two_focus = 2 * focus_distance;
        let horizontal = half_horizontal.scale(two_focus);
        let vertical = half_vertical.scale(two_focus);
        Ok(
            Camera {
                upper_left_corner,
                horizontal,
                vertical,
                origin,
                u,
                v,
                lens_radius: aperture / 2,
            },
        )
    }

    /// The ray of the image-plane coordinates `(s, t)`: from the
    /// origin displaced by a lens sample, toward the corresponding
    /// point of the image plane. With a zero lens radius the
    /// displacement vanishes (a pinhole camera).
    pub fn get_ray(&self, s: i64, t: i64, rng: &mut rand::rngs::SmallRng) -> (r: Ray)
        requires
            cam_wf(*self),
            -8192 <= s <= 8192,
            -8192 <= t <= 8192,
        ensures
            bounded(r.origin, 0x100_0000),
            bounded(r.direction, 0x40_0000_0000),
            exists|p: Vec3|
                #[trigger] in_disk(p) && {
                    let dx = smul(p.x as int, self.lens_radius as int);
                    let dy = smul(p.y as int, self.lens_radius as int);
                    let ox = smul(self.u.x as int, dx) + smul(self.v.x as int, dy);
                    let oy = smul(self.u.y as int, dx) + smul(self.v.y as int, dy);
                    let oz = smul(self.u.z as int, dx) + smul(self.v.z as int, dy);
                    &&& r.origin.x == self.origin.x + ox
                    &&& r.origin.y == self.origin.y + oy
                    &&& r.origin.z == self.origin.z + oz
                    &&& r.direction.x == self.upper_left_corner.x + smul(
                        self.horizontal.x as int,
                        s as int,
                    ) + smul(self.vertical.x as int, t as int) - r.origin.x
                    &&& r.direction.y == self.upper_left_corner.y + smul(
                        self.horizontal.y as int,
                        s as int,
                    ) + smul(self.vertical.y as int, t as int) - r.origin.y
                    &&& r.direction.z == self.upper_left_corner.z + smul(
                        self.horizontal.z as int,
                        s as int,
                    ) + smul(self.vertical.z as int, t as int) - r.origin.z
                },
            self.lens_radius == 0 ==> r.origin == self.origin,
            (cam_in_scene(*self) && 0 <= s <= FX_ONE && 0 <= t <= FX_ONE) ==> bounded(
                r.origin,
                COORD_MAX as int,
            ) && bounded(r.direction, COORD_MAX as int),
    {
        let p = random_in_unit_disk(rng);
        proof {
            lemma_smul_fits(p.x as int, self.lens_radius as int, 4096, 0x8000, 0x8000);
            lemma_smul_fits(p.y as int, self.lens_radius as int, 4096, 0x8000, 0x8000);
            lemma_basis_scale_fits(self.u, smul(p.x as int, self.lens_radius as int), 8192, 0x8000, 0x1_0000);
            lemma_basis_scale_fits(self.v, smul(p.y as int, self.lens_radius as int), 8192, 0x8000, 0x1_0000);
            if self.lens_radius == 0 {
                lemma_smul_zero(p.x as int);
                lemma_smul_zero(p.y as int);
                lemma_smul_zero(self.u.x as int);
                lemma_smul_zero(self.u.y as int);
                lemma_smul_zero(self.u.z as int);
                lemma_smul_zero(self.v.x as int);
                lemma_smul_zero(self.v.y as int);
                lemma_smul_zero(self.v.z as int);
            }
        }
        let dx = crate::fx::fx_mul(p.x, self.lens_radius);
        let dy = crate::fx::fx_mul(p.y, self.lens_radius);
        let offset = self.u.scale(dx).add(self.v.scale(dy));
        let origin = self.origin.add(offset);
        proof {
            lemma_basis_scale_fits(self.horizontal, s as int, 0x8_0000_0000, 8192, 0x10_0000_0000);
            lemma_basis_scale_fits(self.vertical, t as int, 0x8_0000_0000, 8192, 0x10_0000_0000);
        }
        let direction = self
            .upper_left_corner
            .add(self.horizontal.scale(s))
            .add(self.vertical.scale(t))
            .sub(origin);
        proof {
            assert(in_disk(p));
            if cam_in_scene(*self) && 0 <= s <= 4096 && 0 <= t <= 4096 {
                lemma_basis_scale_fits(self.horizontal, s as int, 0x10_0000, 4096, 0x10_0000);
                lemma_basis_scale_fits(self.vertical, t as int, 0x10_0000, 4096, 0x10_0000);
            }
        }
        Ray::new(origin, direction)
    }
}

/// Scaling any vector of the camera frame by a bounded scalar fits,
/// with the scaled bound `q`.
proof fn lemma_basis_scale_fits(b: Vec3, k: int, mb: int, mk: int, q: int)
    requires
        bounded(b, mb),
        -mk <= k <= mk,
        0 <= mb,
        0 <= mk,
        0 <= q,
        mb * mk <= q * 4096,
    ensures
        -q <= smul(b.x as int, k) <= q,
        -q <= smul(b.y as int, k) <= q,
        -q <= smul(b.z as int, k) <= q,
{
    lemma_smul_fits(b.x as int, k, mb, mk, q);
    lemma_smul_fits(b.y as int, k, mb, mk, q);
    lemma_smul_fits(b.z as int, k, mb, mk, q);
}

} // verus!
