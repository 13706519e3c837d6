use raytracer::camera::Camera;
use raytracer::hit::HittableList;
use raytracer::material::{Lambertian, Material, Metal};
use raytracer::ray::Ray;
use raytracer::rng::{
    random_color, random_in_hemisphere, random_in_unit_disk, random_in_unit_sphere, random_unit,
    rng_from_seed,
};
use raytracer::sphere::Sphere;
use raytracer::trace::{pixel_color, ray_color};
use raytracer::vec::Vec3;
use raytracer::BuildError;

const ONE: i64 = 4096;

fn small_scene() -> HittableList {
    let ground = Sphere::new(
        Vec3::new(0, -100 * ONE, -ONE),
        100 * ONE,
        Material::Lambertian(Lambertian::new(Vec3::new(2048, 2048, 2048))),
    )
    .unwrap();
    let ball = Sphere::new(
        Vec3::new(0, 0, -ONE),
        2048,
        Material::Metal(Metal::new(0, Vec3::new(2867, 2457, 2048)).unwrap()),
    )
    .unwrap();
    HittableList::new().insert(ground).insert(ball)
}

#[test]
fn depth_zero_is_black() {
    let world = small_scene();
    let mut rng = rng_from_seed(1);
    let ray = Ray::new(Vec3::new(0, 0, 0), Vec3::new(0, 0, -ONE));
    let c = ray_color(&ray, &world, 0, &mut rng);
    assert_eq!(c, Vec3::new(0, 0, 0));
}

#[test]
fn background_straight_up_is_sky() {
    let world = HittableList::new();
    let mut rng = rng_from_seed(2);
    let up = Ray::new(Vec3::new(0, 0, 0), Vec3::new(0, ONE, 0));
    assert_eq!(ray_color(&up, &world, 50, &mut rng), Vec3::new(2048, 2867, 4096));
}

#[test]
fn background_straight_down_is_white() {
    let world = HittableList::new();
    let mut rng = rng_from_seed(2);
    let down = Ray::new(Vec3::new(0, 0, 0), Vec3::new(0, -ONE, 0));
    assert_eq!(ray_color(&down, &world, 50, &mut rng), Vec3::new(ONE, ONE, ONE));
}

#[test]
fn traced_colors_stay_in_range() {
    let world = small_scene();
    let mut rng = rng_from_seed(3);
    for i in 0..100i64 {
        let dir = Vec3::new((i - 50) * 40, -512, -ONE);
        let c = ray_color(&Ray::new(Vec3::new(0, 0, 0), dir), &world, 20, &mut rng);
        for ch in [c.x, c.y, c.z] {
            assert!((0..=ONE).contains(&ch));
        }
    }
}

#[test]
fn camera_rejects_degenerate_frames() {
    let o = Vec3::new(0, 0, 4 * ONE);
    let up = Vec3::new(0, ONE, 0);
    // Looking at itself: zero-length view direction.
    assert_eq!(
        Camera::new(o, o, up, ONE, ONE, 0).unwrap_err(),
        BuildError::DegenerateCamera
    );
    // Up parallel to the view direction.
    let parallel = Vec3::new(0, 0, ONE);
    assert_eq!(
        Camera::new(o, Vec3::new(0, 0, 0), parallel, ONE, ONE, 0).unwrap_err(),
        BuildError::DegenerateCamera
    );
}

#[test]
fn pinhole_camera_shoots_through_the_center() {
    // A 90-degree camera four units from the target: the ray of the
    // image-plane center runs straight at the look-at point, and a
    // pinhole aperture keeps the origin fixed.
    let cam = Camera::new(
        Vec3::new(0, 0, 4 * ONE),
        Vec3::new(0, 0, 0),
        Vec3::new(0, ONE, 0),
        ONE,
        ONE,
        0,
    )
    .unwrap();
    let mut rng = rng_from_seed(4);
    let center = cam.get_ray(2048, 2048, &mut rng);
    assert_eq!(center.origin, Vec3::new(0, 0, 4 * ONE));
    assert_eq!(center.direction, Vec3::new(0, 0, -4 * ONE));
    let corner = cam.get_ray(0, 0, &mut rng);
    assert_eq!(corner.origin, Vec3::new(0, 0, 4 * ONE));
    assert_eq!(corner.direction, Vec3::new(-4 * ONE, 4 * ONE, -4 * ONE));
}

#[test]
fn aperture_spreads_ray_origins() {
    let cam = Camera::new(
        Vec3::new(0, 0, 4 * ONE),
        Vec3::new(0, 0, 0),
        Vec3::new(0, ONE, 0),
        ONE,
        ONE,
        2048,
    )
    .unwrap();
    let mut rng = rng_from_seed(9);
    let mut moved = false;
    for _ in 0..50 {
        let ray = cam.get_ray(2048, 2048, &mut rng);
        if ray.origin != Vec3::new(0, 0, 4 * ONE) {
            moved = true;
        }
    }
    assert!(moved);
}

#[test]
fn pixel_colors_stay_in_range() {
    let world = small_scene();
    let cam = Camera::new(
        Vec3::new(0, 2048, 2 * ONE),
        Vec3::new(0, 0, -ONE),
        Vec3::new(0, ONE, 0),
        ONE,
        6144,
        0,
    )
    .unwrap();
    let mut rng = rng_from_seed(6);
    for x in 0..4u32 {
        for y in 0..3u32 {
            let c = pixel_color(&cam, &world, x, y, 4, 3, 8, 10, &mut rng);
            for ch in [c.x, c.y, c.z] {
                assert!((0..=ONE).contains(&ch));
            }
        }
    }
}

#[test]
fn pixel_depth_zero_is_black() {
    let world = small_scene();
    let cam = Camera::new(
        Vec3::new(0, 0, 4 * ONE),
        Vec3::new(0, 0, 0),
        Vec3::new(0, ONE, 0),
        ONE,
        ONE,
        0,
    )
    .unwrap();
    let mut rng = rng_from_seed(21);
    let c = pixel_color(&cam, &world, 1, 1, 4, 3, 8, 0, &mut rng);
    assert_eq!(c, Vec3::new(0, 0, 0));
}

#[test]
fn empty_scene_pixel_has_full_blue() {
    // Every escaped ray samples the sky gradient, whose blue channel
    // is always full; the average keeps it exactly.
    let world = HittableList::new();
    let cam = Camera::new(
        Vec3::new(0, 0, 4 * ONE),
        Vec3::new(0, 0, 0),
        Vec3::new(0, ONE, 0),
        ONE,
        ONE,
        0,
    )
    .unwrap();
    let mut rng = rng_from_seed(22);
    for x in 0..3u32 {
        let c = pixel_color(&cam, &world, x, 1, 4, 3, 16, 10, &mut rng);
        assert_eq!(c.z, ONE);
        assert!((0..=ONE).contains(&c.x));
        assert!((0..=ONE).contains(&c.y));
    }
}

#[test]
fn uniform_scalar_stays_in_unit_interval() {
    let mut rng = rng_from_seed(8);
    let mut distinct = false;
    let first = random_unit(&mut rng);
    for _ in 0..1000 {
        let v = random_unit(&mut rng);
        assert!((0..ONE).contains(&v));
        if v != first {
            distinct = true;
        }
    }
    assert!(distinct);
}

#[test]
fn ball_samples_stay_inside() {
    let mut rng = rng_from_seed(10);
    for _ in 0..500 {
        let p = random_in_unit_sphere(&mut rng);
        assert!(p.length() < ONE);
    }
}

#[test]
fn hemisphere_samples_respect_the_normal() {
    let mut rng = rng_from_seed(12);
    let normal = Vec3::new(ONE, ONE, 0);
    for _ in 0..500 {
        let p = random_in_hemisphere(normal, &mut rng);
        assert!(p.dot(normal) >= 0);
        assert!(p.length() < ONE);
    }
}

#[test]
fn disk_samples_stay_inside() {
    let mut rng = rng_from_seed(14);
    for _ in 0..500 {
        let p = random_in_unit_disk(&mut rng);
        assert_eq!(p.z, 0);
        assert!((0..ONE).contains(&p.x));
        assert!((0..ONE).contains(&p.y));
        assert!(p.length() < ONE);
    }
}

#[test]
fn random_colors_stay_in_range() {
    let mut rng = rng_from_seed(16);
    for _ in 0..200 {
        let c = random_color(&mut rng);
        for ch in [c.x, c.y, c.z] {
            assert!((0..ONE).contains(&ch));
        }
    }
}
