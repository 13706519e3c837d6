//! The integrator: the recursive bounce of a ray through the scene,
//! and the per-pixel Monte-Carlo average.
//!
//! Each bounce intersects the scene, asks the struck material to
//! scatter, attenuates and recurses with one less unit of depth.
//! A ray that escapes samples the sky gradient; an exhausted depth
//! budget or an absorbed or degenerate scatter contributes black.
use vstd::prelude::*;

verus! {

use crate::COORD_MAX;
use crate::TIME_MAX;
use crate::camera::Camera;
use crate::camera::cam_wf;
use crate::fx::fx_div;
use crate::fx::lemma_sdiv_le_unit;
use crate::fx::lemma_smul_fits;
use crate::fx::lemma_smul_unit_range;
use crate::fx::sdiv;
use crate::fx::smul;
use crate::hit::HittableList;
use crate::hit::eff_s;
use crate::hit::scene_hit_t;
use crate::hit::scene_wf;
use crate::material::Material;
use crate::material::attenuation_of;
use crate::material::color_ok;
use crate::material::material_wf;
use crate::ray::Ray;
use crate::rng::random_unit;
use crate::sphere::is_record_of;
use crate::sphere::ray_ok;
use crate::sphere::sphere_wf;
use crate::vec::Vec3;
use crate::vec::bounded;
use crate::vec::len_s;

/// The lower end of the intersection window: about `0.001` in scalar
/// value, so a scattered ray does not immediately re-hit the surface
/// it left.
pub const HIT_EPS: i64 = 4;

/// The sky-gradient interpolation weight of a direction:
/// `0.5 * (y + 1)` of the normalized direction, clamped to the unit
/// interval; a zero-length direction weighs as zero.
pub open spec fn sky_t_s(d: Vec3) -> int {
    if len_s(d) == 0 {
        0
    } else {
        let t = smul(2048, sdiv(d.y as int, len_s(d)) + 4096);
        if t < 0 {
            0
        } else if t > 4096 {
            4096
        } else {
            t
        }
    }
}

/// One channel of the background: white and the sky color of that
/// channel, blended by the weight.
pub open spec fn bg_channel_s(skyc: int, t: int) -> int {
    smul(4096, 4096 - t) + smul(skyc, t)
}

/// A blended background channel stays a valid color channel.
proof fn lemma_bg_channel_range(skyc: int, t: int)
    requires
        0 <= skyc <= 4096,
        0 <= t <= 4096,
    ensures
        0 <= bg_channel_s(skyc, t) <= 4096,
{
    lemma_smul_unit_range(4096, 4096 - t);
    lemma_smul_unit_range(skyc, t);
    crate::fx::lemma_smul_comm(4096, 4096 - t);
    crate::fx::lemma_smul_comm(skyc, t);
    crate::fx::lemma_smul_comm(4096, t);
    lemma_smul_unit_range(t, 4096);
    assert(0 <= skyc * t <= 4096 * t) by (nonlinear_arith)
        requires
            0 <= skyc <= 4096,
            0 <= t,
    ;
    crate::fx::lemma_tdiv_ordered(skyc * t, 4096 * t, 4096);
}

/// The sky weight always lands in the unit interval.
proof fn lemma_sky_t_range(d: Vec3)
    ensures
        0 <= sky_t_s(d) <= 4096,
{
}

/// The blue channel of the background is always full: white and the
/// sky color both carry a full blue channel, and blending whole
/// units is exact.
proof fn lemma_bg_blue_full(t: int)
    requires
        0 <= t <= 4096,
    ensures
        bg_channel_s(4096, t) == 4096,
{
    crate::fx::lemma_smul_comm(4096, 4096 - t);
    crate::fx::lemma_smul_comm(4096, t);
    lemma_smul_unit_range(4096 - t, 4096);
    lemma_smul_unit_range(t, 4096);
}

/// The boundary values of the sky gradient: a ray pointing straight
/// up samples the pure sky color, and one pointing straight down
/// samples pure white.
pub proof fn lemma_background_boundaries()
    ensures
        bg_channel_s(2048, sky_t_s(Vec3 { x: 0, y: 4096, z: 0 })) == 2048,
        bg_channel_s(2867, sky_t_s(Vec3 { x: 0, y: 4096, z: 0 })) == 2867,
        bg_channel_s(4096, sky_t_s(Vec3 { x: 0, y: 4096, z: 0 })) == 4096,
        bg_channel_s(2048, sky_t_s(Vec3 { x: 0, y: -4096i64, z: 0 })) == 4096,
        bg_channel_s(2867, sky_t_s(Vec3 { x: 0, y: -4096i64, z: 0 })) == 4096,
        bg_channel_s(4096, sky_t_s(Vec3 { x: 0, y: -4096i64, z: 0 })) == 4096,
{
    let up = Vec3 { x: 0, y: 4096, z: 0 };
    let down = Vec3 { x: 0, y: -4096i64, z: 0 };
    crate::fx::lemma_smul_zero(0);
    vstd::arithmetic::div_mod::lemma_div_multiples_vanish(4096, 4096);
    assert(4096 * 4096 == 16777216) by (nonlinear_arith);
    assert(smul(4096, 4096) == 4096);
    assert(smul(-4096, -4096) == 4096) by {
        crate::vec::lemma_smul_neg(-4096, 4096);
        crate::vec::lemma_smul_neg(4096, 4096);
    }
    assert(crate::vec::dot_s(up, up) == 4096);
    assert(crate::vec::dot_s(down, down) == 4096);
    assert(crate::fx::isqrt_s(16777216nat) == 4096) by {
        assert(4096nat * 4096nat == 16777216nat) by (nonlinear_arith);
        assert((4096nat + 1) * (4096nat + 1) == 16785409nat) by (nonlinear_arith);
        crate::fx::lemma_isqrt_unique(16777216nat, 4096nat);
    }
    assert(len_s(up) == 4096);
    assert(len_s(down) == 4096);
    assert(sdiv(4096, 4096) == 4096);
    assert(sdiv(-4096, 4096) == -4096) by {
        crate::fx::lemma_tdiv_neg(16777216, 4096);
    }
    assert(2048 * 8192int == 4096 * 4096) by (nonlinear_arith);
    assert(smul(2048, 8192) == 4096);
    crate::fx::lemma_smul_zero(2048);
    assert(sdiv(up.y as int, 4096) + 4096 == 8192);
    assert(sky_t_s(up) == 4096);
    assert(sky_t_s(down) == 0);
    crate::fx::lemma_smul_zero(4096);
    crate::fx::lemma_smul_unit_range(2048, 4096);
    crate::fx::lemma_smul_unit_range(2867, 4096);
    crate::fx::lemma_smul_unit_range(4096, 4096);
}

/// The sky-gradient background of a ray direction.
fn background(d: Vec3) -> (c: Vec3)
    requires
        bounded(d, COORD_MAX as int),
    ensures
        c.x == bg_channel_s(2048, sky_t_s(d)),
        c.y == bg_channel_s(2867, sky_t_s(d)),
        c.z == bg_channel_s(4096, sky_t_s(d)),
        color_ok(c),
{
    let t: i64 = match d.unify() {
        None => 0,
        Some(ud) => {
            proof {
                crate::fx::lemma_sdiv_fits(d.y as int, len_s(d), 0x80_0000, 0x8_0000_0000);
                lemma_smul_fits(2048, ud.y as int + 4096, 2048, 0x8_0000_1000, 0x4_0000_0800);
            }
            let t0 = crate::fx::fx_mul(2048, ud.y + 4096);
            if t0 < 0 {
                0
            } else if t0 > 4096 {
                4096
            } else {
                t0
            }
        },
    };
    proof {
        lemma_bg_channel_range(2048, t as int);
        lemma_bg_channel_range(2867, t as int);
        lemma_bg_channel_range(4096, t as int);
        lemma_smul_unit_range(4096, 4096 - t as int);
        lemma_smul_unit_range(2048, t as int);
        lemma_smul_unit_range(2867, t as int);
        lemma_smul_unit_range(4096, t as int);
    }
    let white = Vec3::new(4096, 4096, 4096);
    let sky = Vec3::new(2048, 2867, 4096);
    white.scale(4096 - t).add(sky.scale(t))
}

/// Does every component lie within the scene's coordinate bound?
fn in_coord_box(v: Vec3) -> (b: bool)
    ensures
        b == bounded(v, COORD_MAX as int),
{
    v.x <= COORD_MAX && v.x >= -COORD_MAX && v.y <= COORD_MAX && v.y >= -COORD_MAX && v.z
        <= COORD_MAX && v.z >= -COORD_MAX
}

/// What one bounce may hand back for a material: black (an
/// exhausted, absorbed or numerically degenerate path) or the
/// material's attenuation applied channelwise to some color in the
/// unit cube.
pub open spec fn bounce_of(c: Vec3, m: Material) -> bool {
    ||| c == (Vec3 { x: 0, y: 0, z: 0 })
    ||| exists|b: Vec3|
        #[trigger] color_ok(b) && c.x == smul(attenuation_of(m).x as int, b.x as int) && c.y
            == smul(attenuation_of(m).y as int, b.y as int) && c.z == smul(
            attenuation_of(m).z as int,
            b.z as int,
        )
}

/// The color carried back along a ray: black once the depth budget
/// is exhausted, the sky gradient when the ray escapes the scene,
/// and otherwise one bounce of the struck sphere's material: black
/// for an absorbed or degenerate path, else the material's
/// attenuation times the bounced color. Every returned channel lies
/// in `[0, 1]`.
pub fn ray_color(ray: &Ray, world: &HittableList, depth: u32, rng: &mut rand::rngs::SmallRng) -> (c:
    Vec3)
    requires
        scene_wf(world.objects@),
        ray_ok(*ray),
    ensures
        color_ok(c),
        depth == 0 ==> c == (Vec3 { x: 0, y: 0, z: 0 }),
        (depth > 0 && scene_hit_t(world.objects@, *ray, HIT_EPS as int, TIME_MAX as int)
            is None) ==> {
            &&& c.x == bg_channel_s(2048, sky_t_s(ray.direction))
            &&& c.y == bg_channel_s(2867, sky_t_s(ray.direction))
            &&& c.z == bg_channel_s(4096, sky_t_s(ray.direction))
        },
        (depth > 0 && scene_hit_t(world.objects@, *ray, HIT_EPS as int, TIME_MAX as int)
            is Some) ==> exists|j: int|
            0 <= j < world.objects@.len() && eff_s(
                #[trigger] world.objects@[j],
                *ray,
                HIT_EPS as int,
                TIME_MAX as int,
            ) == Some(
                scene_hit_t(world.objects@, *ray, HIT_EPS as int, TIME_MAX as int)->Some_0,
            ) && bounce_of(c, world.objects@[j].material),
    decreases depth,
{
    if depth == 0 {
        return Vec3::new(0, 0, 0);
    }
    match world.hit(ray, HIT_EPS, TIME_MAX) {
        None => background(ray.direction),
        Some(rec) => {
            proof {
                let objs = world.objects@;
                let t = scene_hit_t(objs, *ray, HIT_EPS as int, TIME_MAX as int)->Some_0;
                let j = choose|j: int|
                    0 <= j < objs.len() && eff_s(#[trigger] objs[j], *ray, HIT_EPS as int, TIME_MAX as int)
                        == Some(t) && is_record_of(rec, objs[j], *ray, t);
                assert(sphere_wf(objs[j]));
                assert(material_wf(rec.material));
                assert(exists|k: int|
                    0 <= k < objs.len() && eff_s(#[trigger] objs[k], *ray, HIT_EPS as int, TIME_MAX as int)
                        == Some(t) && objs[k].material == rec.material);
            }
            match rec.material.scatter(ray.direction, &rec, rng) {
                None => {
                    let black = Vec3::new(0, 0, 0);
                    proof {
                        assert(bounce_of(black, rec.material));
                    }
                    black
                },
                Some((attenuation, direction)) => {
                    if !in_coord_box(rec.position) || !in_coord_box(direction) {
                        // A scattered ray outside the scene's bounds
                        // cannot be traced further; degrade to the
                        // defined terminal color.
                        let black = Vec3::new(0, 0, 0);
                        proof {
                            assert(bounce_of(black, rec.material));
                        }
                        black
                    } else {
                        let next = Ray::new(rec.position, direction);
                        let bounced = ray_color(&next, world, depth - 1, rng);
                        proof {
                            lemma_smul_unit_range(attenuation.x as int, bounced.x as int);
                            lemma_smul_unit_range(attenuation.y as int, bounced.y as int);
                            lemma_smul_unit_range(attenuation.z as int, bounced.z as int);
                        }
                        let shaded = attenuation.mul(bounced);
                        proof {
                            assert(bounce_of(shaded, rec.material));
                        }
                        shaded
                    }
                },
            }
        },
    }
}

/// The Monte-Carlo color of one pixel: the average of `samples`
/// independent traced paths through jittered image-plane
/// coordinates. Every returned channel lies in `[0, 1]`.
pub fn pixel_color(
    camera: &Camera,
    world: &HittableList,
    x: u32,
    y: u32,
    width: u32,
    height: u32,
    samples: u32,
    depth: u32,
    rng: &mut rand::rngs::SmallRng,
) -> (c: Vec3)
    requires
        cam_wf(*camera),
        scene_wf(world.objects@),
        x < width,
        y < height,
        width <= 0x10_0000,
        height <= 0x10_0000,
        1 <= samples <= 0x10_0000,
    ensures
        color_ok(c),
        depth == 0 ==> c == (Vec3 { x: 0, y: 0, z: 0 }),
        (depth > 0 && world.objects@.len() == 0 && crate::camera::cam_in_scene(*camera)) ==> c.z
            == crate::fx::FX_ONE,
{
    let mut sum = Vec3::new(0, 0, 0);
    for i in 0..samples
        invariant
            cam_wf(*camera),
            scene_wf(world.objects@),
            x < width,
            y < height,
            width <= 0x10_0000,
            height <= 0x10_0000,
            1 <= samples <= 0x10_0000,
            0 <= sum.x <= 4096 * i,
            0 <= sum.y <= 4096 * i,
            0 <= sum.z <= 4096 * i,
            depth == 0 ==> sum == (Vec3 { x: 0, y: 0, z: 0 }),
            (depth > 0 && world.objects@.len() == 0 && crate::camera::cam_in_scene(*camera))
                ==> sum.z == 4096 * i,
    {
        let sx: i64 = (x as i64) * 4096 + random_unit(rng);
        let sy: i64 = (y as i64) * 4096 + random_unit(rng);
        let dw: i64 = (width as i64) * 4096;
        let dh: i64 = (height as i64) * 4096;
        proof {
            lemma_sdiv_le_unit(sx as int, dw as int);
            lemma_sdiv_le_unit(sy as int, dh as int);
        }
        let u = fx_div(sx, dw);
        let v = fx_div(sy, dh);
        let ray = camera.get_ray(u, v, rng);
        let sample = if in_coord_box(ray.origin) && in_coord_box(ray.direction) {
            ray_color(&ray, world, depth, rng)
        } else {
            // A frame so extreme that its rays leave the scene's
            // bounds contributes the terminal color.
            Vec3::new(0, 0, 0)
        };
        proof {
            if depth > 0 && world.objects@.len() == 0 && crate::camera::cam_in_scene(*camera) {
                // Within an in-scene frame the guard always passes,
                // the empty scene has no hit, and the background's
                // blue channel is always full.
                assert(scene_hit_t(world.objects@, ray, HIT_EPS as int, TIME_MAX as int) is None);
                lemma_sky_t_range(ray.direction);
                lemma_bg_blue_full(sky_t_s(ray.direction));
                assert(sample.z == 4096);
            }
        }
        sum = sum.add(sample);
    }
    let d: i64 = (samples as i64) * 4096;
    proof {
        lemma_sdiv_le_unit(sum.x as int, d as int);
        lemma_sdiv_le_unit(sum.y as int, d as int);
        lemma_sdiv_le_unit(sum.z as int, d as int);
        if depth == 0 {
            crate::fx::lemma_tdiv_bounds(0, d as int);
        }
        if sum.z == d {
            vstd::arithmetic::div_mod::lemma_div_multiples_vanish(4096, d as int);
            assert(sum.z as int * 4096 == d as int * 4096) by (nonlinear_arith)
                requires
                    sum.z == d,
            ;
        }
    }
    sum.div(d)
}

} // verus!
