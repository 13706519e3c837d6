use raytracer::fx::{fx_div, fx_mul, fx_sqrt, FX_ONE};
use raytracer::vec::Vec3;

#[test]
fn scale_constant_is_one() {
    assert_eq!(FX_ONE, 4096);
}

#[test]
fn mul_exact_values() {
    assert_eq!(fx_mul(4096, 4096), 4096);
    assert_eq!(fx_mul(2048, 2048), 1024);
    assert_eq!(fx_mul(-2048, 2048), -1024);
    assert_eq!(fx_mul(0, 12345), 0);
}

#[test]
fn mul_rounds_toward_zero() {
    assert_eq!(fx_mul(5, 3), 0);
    assert_eq!(fx_mul(-5, 3), 0);
}

#[test]
fn div_exact_values() {
    assert_eq!(fx_div(4096, 8192), 2048);
    assert_eq!(fx_div(1, 3), 1365);
    assert_eq!(fx_div(-1, 3), -1365);
}

#[test]
fn sqrt_exact_values() {
    assert_eq!(fx_sqrt(0), 0);
    assert_eq!(fx_sqrt(4096), 4096);
    assert_eq!(fx_sqrt(16384), 8192);
    assert_eq!(fx_sqrt(1024), 2048);
    assert_eq!(fx_sqrt(2), 90);
}

#[test]
fn dot_and_cross_values() {
    let ex = Vec3::new(4096, 0, 0);
    let ey = Vec3::new(0, 4096, 0);
    let ez = Vec3::new(0, 0, 4096);
    assert_eq!(ex.dot(ex), 4096);
    assert_eq!(ex.dot(ey), 0);
    assert_eq!(ex.cross(ey), ez);
    assert_eq!(ey.cross(ez), ex);
}

#[test]
fn length_of_three_four_five() {
    let v = Vec3::new(0, 3 * 4096, 4 * 4096);
    assert_eq!(v.length_squared(), 25 * 4096);
    assert_eq!(v.length(), 5 * 4096);
}

#[test]
fn unify_of_three_four_five() {
    let v = Vec3::new(0, 3 * 4096, 4 * 4096);
    let u = v.unify().unwrap();
    assert_eq!(u, Vec3::new(0, 2457, 3276));
}

#[test]
fn unify_of_zero_vector_fails() {
    assert!(Vec3::new(0, 0, 0).unify().is_none());
}

#[test]
fn vector_arithmetic() {
    let a = Vec3::new(4096, -4096, 2048);
    let b = Vec3::new(2048, 2048, 2048);
    assert_eq!(a.add(b), Vec3::new(6144, -2048, 4096));
    assert_eq!(a.sub(b), Vec3::new(2048, -6144, 0));
    assert_eq!(a.neg(), Vec3::new(-4096, 4096, -2048));
    assert_eq!(a.scale(2048), Vec3::new(2048, -2048, 1024));
    assert_eq!(a.mul(b), Vec3::new(2048, -2048, 1024));
    assert_eq!(a.div(2048), Vec3::new(8192, -8192, 4096));
}

#[test]
fn pixel_quantization() {
    assert_eq!(Vec3::new(4096, 2048, 0).pixel(), [255, 127, 0]);
    assert_eq!(Vec3::new(-100, 5000, 4096).pixel(), [0, 255, 255]);
    assert_eq!(Vec3::new(1024, 3072, 16).pixel(), [63, 191, 0]);
}
