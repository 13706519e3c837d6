use raytracer::hit::HitRecord;
use raytracer::material::{reflect, refract, Glass, Lambertian, Material, Metal};
use raytracer::rng::rng_from_seed;
use raytracer::vec::Vec3;
use raytracer::BuildError;

const ONE: i64 = 4096;

fn record(normal: Vec3, front_face: bool) -> HitRecord {
    HitRecord {
        position: Vec3::new(0, 0, 0),
        normal,
        t: ONE,
        front_face,
        material: Material::Lambertian(Lambertian::new(Vec3::new(2048, 2048, 2048))),
    }
}

#[test]
fn metal_rejects_fuzz_out_of_range() {
    let albedo = Vec3::new(2048, 2048, 2048);
    assert_eq!(Metal::new(-1, albedo).unwrap_err(), BuildError::InvalidFuzz);
    assert_eq!(Metal::new(ONE, albedo).unwrap_err(), BuildError::InvalidFuzz);
    assert!(Metal::new(0, albedo).is_ok());
    assert!(Metal::new(ONE - 1, albedo).is_ok());
}

#[test]
fn glass_rejects_bad_index() {
    assert_eq!(Glass::new(0).unwrap_err(), BuildError::InvalidEta);
    assert_eq!(Glass::new(-ONE).unwrap_err(), BuildError::InvalidEta);
    assert!(Glass::new(6144).is_ok());
}

#[test]
fn lambertian_keeps_albedo() {
    let albedo = Vec3::new(1024, 2048, 3072);
    let lam = Lambertian::new(albedo);
    let mut rng = rng_from_seed(7);
    let rec = record(Vec3::new(0, ONE, 0), true);
    let (attenuation, _) = lam.scatter(Vec3::new(ONE, -ONE, 0), &rec, &mut rng).unwrap();
    assert_eq!(attenuation, albedo);
}

#[test]
fn lambertian_scatters_into_hemisphere() {
    // Every sample lies on the normal's side: the fraction of
    // samples with a nonnegative dot product is exactly one.
    let lam = Lambertian::new(Vec3::new(2048, 2048, 2048));
    let normal = Vec3::new(0, ONE, 0);
    let rec = record(normal, true);
    let mut rng = rng_from_seed(11);
    for _ in 0..1000 {
        let (_, dir) = lam.scatter(Vec3::new(ONE, -ONE, 0), &rec, &mut rng).unwrap();
        assert!(dir.dot(normal) >= 0);
        assert!(dir.length() < ONE);
    }
}

#[test]
fn reflection_law_for_zero_fuzz_metal() {
    // Mirror symmetry: against the unit normal (0, 1, 0), the
    // direction (1, -1, 0) reflects to (1, 1, 0) exactly, and the
    // reflected dot with the normal is the negation of the incoming
    // one.
    let metal = Metal::new(0, Vec3::new(2867, 2457, 2048)).unwrap();
    let normal = Vec3::new(0, ONE, 0);
    let rec = record(normal, true);
    let incoming = Vec3::new(ONE, -ONE, 0);
    let mut rng = rng_from_seed(3);
    let (attenuation, dir) = metal.scatter(incoming, &rec, &mut rng).unwrap();
    assert_eq!(attenuation, Vec3::new(2867, 2457, 2048));
    assert_eq!(dir, Vec3::new(ONE, ONE, 0));
    assert_eq!(dir.dot(normal), -incoming.dot(normal));
}

#[test]
fn metal_fuzz_perturbs_the_mirror() {
    let metal = Metal::new(2048, Vec3::new(2048, 2048, 2048)).unwrap();
    let normal = Vec3::new(0, ONE, 0);
    let rec = record(normal, true);
    let incoming = Vec3::new(ONE, -ONE, 0);
    let mirror = reflect(incoming, normal);
    let mut rng = rng_from_seed(5);
    let mut saw_perturbed = false;
    for _ in 0..50 {
        let (_, dir) = metal.scatter(incoming, &rec, &mut rng).unwrap();
        // The perturbation stays within half a unit per component.
        assert!((dir.x - mirror.x).abs() <= 2048);
        assert!((dir.y - mirror.y).abs() <= 2048);
        assert!((dir.z - mirror.z).abs() <= 2048);
        if dir != mirror {
            saw_perturbed = true;
        }
    }
    assert!(saw_perturbed);
}

#[test]
fn glass_never_absorbs() {
    let glass = Glass::new(6144).unwrap();
    let normal = Vec3::new(0, ONE, 0);
    let rec = record(normal, true);
    let mut rng = rng_from_seed(13);
    for _ in 0..200 {
        let (attenuation, _) = glass.scatter(Vec3::new(ONE, -ONE, 0), &rec, &mut rng).unwrap();
        assert_eq!(attenuation, Vec3::new(ONE, ONE, ONE));
    }
}

#[test]
fn total_internal_reflection_always_reflects() {
    // Inside glass with eta 1.5, a grazing ray exceeds the critical
    // angle: the scatter must reflect with probability one, whatever
    // the generator draws.
    let glass = Glass::new(6144).unwrap();
    let normal = Vec3::new(0, ONE, 0);
    let rec = record(normal, false);
    let incoming = Vec3::new(ONE, -512, 0);
    let expected = reflect(incoming, normal);
    for seed in 0..100u64 {
        let mut rng = rng_from_seed(seed);
        let (_, dir) = glass.scatter(incoming, &rec, &mut rng).unwrap();
        assert_eq!(dir, expected);
    }
}

#[test]
fn refraction_bends_a_normal_ray() {
    // Entering glass head-on tilted: below the critical angle some
    // draws refract, and a refracted direction differs from the
    // mirror one.
    let normal = Vec3::new(0, ONE, 0);
    let incoming = Vec3::new(2048, -ONE, 0);
    let mirror = reflect(incoming, normal);
    let coefficient = 2731;  // about 1/1.5, entering the glass
    let mut saw_refracted = false;
    for seed in 0..100u64 {
        let mut rng = rng_from_seed(seed);
        if let Some(dir) = refract(coefficient, incoming, normal, &mut rng) {
            if dir != mirror {
                saw_refracted = true;
                // A refracted ray continues into the surface.
                assert!(dir.y < 0);
            }
        }
    }
    assert!(saw_refracted);
}
