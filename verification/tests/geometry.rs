use raytracer::hit::HittableList;
use raytracer::material::{Lambertian, Material};
use raytracer::ray::Ray;
use raytracer::sphere::Sphere;
use raytracer::vec::Vec3;
use raytracer::BuildError;

fn gray() -> Material {
    Material::Lambertian(Lambertian::new(Vec3::new(2048, 2048, 2048)))
}

/// A unit used across the geometry tests: one whole scale unit.
const ONE: i64 = 4096;

#[test]
fn sphere_rejects_zero_radius() {
    let r = Sphere::new(Vec3::new(0, 0, 0), 0, gray());
    assert_eq!(r.unwrap_err(), BuildError::InvalidRadius);
}

#[test]
fn sphere_accepts_negative_radius() {
    assert!(Sphere::new(Vec3::new(0, 0, 0), -2048, gray()).is_ok());
}

#[test]
fn intersection_roundtrip_from_surface() {
    // A sphere at (0, 0, -1) with radius 0.5, hit by a ray from the
    // origin straight along -z: the hit is at t = 0.5, on the point
    // (0, 0, -0.5), with the outward normal (0, 0, 1).
    let sphere = Sphere::new(Vec3::new(0, 0, -ONE), 2048, gray()).unwrap();
    let ray = Ray::new(Vec3::new(0, 0, 0), Vec3::new(0, 0, -ONE));
    let rec = sphere.hit(&ray, 0, 100 * ONE).unwrap();
    assert_eq!(rec.t, 2048);
    assert_eq!(rec.position, Vec3::new(0, 0, -2048));
    assert_eq!(rec.normal, Vec3::new(0, 0, ONE));
    assert!(rec.front_face);
}

#[test]
fn front_face_invariant_on_hit() {
    let sphere = Sphere::new(Vec3::new(0, 0, -ONE), 2048, gray()).unwrap();
    let ray = Ray::new(Vec3::new(0, 0, 0), Vec3::new(0, 0, -ONE));
    let rec = sphere.hit(&ray, 0, 100 * ONE).unwrap();
    assert!(ray.direction.dot(rec.normal) <= 0);
    // From inside the sphere the normal flips to oppose the ray.
    let inside = Ray::new(Vec3::new(0, 0, -ONE), Vec3::new(0, 0, -ONE));
    let rec2 = sphere.hit(&inside, 0, 100 * ONE).unwrap();
    assert!(!rec2.front_face);
    assert!(inside.direction.dot(rec2.normal) <= 0);
}

#[test]
fn no_hit_outside_window() {
    // The geometric root at t = 0.5 exists, but the window ends at
    // t = 0.1: no intersection may be reported.
    let sphere = Sphere::new(Vec3::new(0, 0, -ONE), 2048, gray()).unwrap();
    let ray = Ray::new(Vec3::new(0, 0, 0), Vec3::new(0, 0, -ONE));
    assert!(sphere.hit(&ray, 0, 409).is_none());
}

#[test]
fn no_hit_behind_ray() {
    let sphere = Sphere::new(Vec3::new(0, 0, 2 * ONE), 2048, gray()).unwrap();
    let ray = Ray::new(Vec3::new(0, 0, 0), Vec3::new(0, 0, -ONE));
    assert!(sphere.hit(&ray, 4, 100 * ONE).is_none());
}

#[test]
fn degenerate_direction_yields_no_hit() {
    let sphere = Sphere::new(Vec3::new(0, 0, -ONE), 2048, gray()).unwrap();
    let ray = Ray::new(Vec3::new(0, 0, 0), Vec3::new(0, 0, 0));
    assert!(sphere.hit(&ray, 0, 100 * ONE).is_none());
}

#[test]
fn nearest_hit_selection_either_order() {
    // Two spheres along the ray; the aggregate must return the
    // closer hit whatever the insertion order.
    let near = Sphere::new(Vec3::new(0, 0, -2 * ONE), 2048, gray()).unwrap();
    let far = Sphere::new(Vec3::new(0, 0, -3 * ONE), 2048, gray()).unwrap();
    let ray = Ray::new(Vec3::new(0, 0, 0), Vec3::new(0, 0, -ONE));

    let world_a = HittableList::new().insert(near).insert(far);
    let world_b = HittableList::new().insert(far).insert(near);

    let rec_a = world_a.hit(&ray, 4, 100 * ONE).unwrap();
    let rec_b = world_b.hit(&ray, 4, 100 * ONE).unwrap();
    assert_eq!(rec_a.t, 6144);
    assert_eq!(rec_b.t, rec_a.t);
    assert_eq!(rec_a.position, rec_b.position);
}

#[test]
fn empty_scene_has_no_hit() {
    let world = HittableList::new();
    let ray = Ray::new(Vec3::new(0, 0, 0), Vec3::new(0, 0, -ONE));
    assert!(world.hit(&ray, 4, 100 * ONE).is_none());
}

#[test]
fn overlapping_spheres_pick_smaller_t() {
    // Overlapping spheres: both contain the point at t = 1.5; the
    // closest surface wins.
    let a = Sphere::new(Vec3::new(0, 0, -2 * ONE), ONE, gray()).unwrap();
    let b = Sphere::new(Vec3::new(0, 0, -5 * ONE / 2), ONE, gray()).unwrap();
    let ray = Ray::new(Vec3::new(0, 0, 0), Vec3::new(0, 0, -ONE));
    let ta = a.hit(&ray, 4, 100 * ONE).unwrap().t;
    let tb = b.hit(&ray, 4, 100 * ONE).unwrap().t;
    let world = HittableList::new().insert(b).insert(a);
    let rec = world.hit(&ray, 4, 100 * ONE).unwrap();
    assert_eq!(rec.t, ta.min(tb));
}

#[test]
fn ray_at_walks_the_parameter() {
    let ray = Ray::new(Vec3::new(ONE, 0, 0), Vec3::new(0, 2 * ONE, 0));
    assert_eq!(ray.at(2048), Vec3::new(ONE, ONE, 0));
    assert_eq!(ray.at(0), Vec3::new(ONE, 0, 0));
}

#[test]
fn negative_radius_inverts_the_normal() {
    // The hollow-shell trick: a negative radius flips the outward
    // normal, so a ray from outside counts as hitting a back face,
    // while the oriented normal still opposes the ray.
    let shell = Sphere::new(Vec3::new(0, 0, -ONE), -2048, gray()).unwrap();
    let ray = Ray::new(Vec3::new(0, 0, 0), Vec3::new(0, 0, -ONE));
    let rec = shell.hit(&ray, 4, 100 * ONE).unwrap();
    assert_eq!(rec.t, 2048);
    assert!(!rec.front_face);
    assert_eq!(rec.normal, Vec3::new(0, 0, ONE));
    assert!(ray.direction.dot(rec.normal) <= 0);
}
