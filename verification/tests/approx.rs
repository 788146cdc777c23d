use raytracer::fixed::Fx;
use raytracer::vec::{approx_eq, approx_eq_with_error, approx_zero, approx_zero_with_error, Vec3};

fn fx(v: f64) -> Fx {
    Fx::from_raw((v * 4294967296.0).round() as i64)
}

fn v3(x: f64, y: f64, z: f64) -> Vec3 {
    Vec3::new(fx(x), fx(y), fx(z))
}

fn zero() -> Vec3 {
    Vec3::zero()
}

#[test]
fn zero_approx_zero() {
    assert!(approx_zero(zero()));
}

#[test]
fn almost_zero_approx_zero() {
    assert!(approx_zero(v3(f64::EPSILON, 0.0, 0.0)));
}

#[test]
fn zero_approx_eq_zero() {
    assert!(approx_eq(zero(), zero()));
}

#[test]
fn almost_zero_approx_eq_zero() {
    assert!(approx_eq(v3(f64::EPSILON, 0.0, 0.0), zero()));
}

#[test]
fn numbers_approx_eq() {
    // Two raw units apart: within tolerance but not identical.
    let a = Vec3::new(Fx::from_raw(fx(0.3).raw + 2), fx(0.0), fx(0.0));
    let b = v3(0.3, 0.0, 0.0);

    // To show a approx b but a != b.
    assert!(a != b);
    assert!(approx_eq(a, b));
}

// Should return false.
#[test]
fn one_not_approx_zero() {
    assert!(!approx_zero(Vec3::one()));
}

#[test]
fn inf_not_approx_zero() {
    // The saturated greatest value stands in for infinity.
    assert!(!approx_zero(Vec3::new(Fx::from_raw(i64::MAX), fx(0.0), fx(0.0))));
}

#[test]
fn nan_not_approx_zero() {
    // Fixed point has no NaN; the saturated least value is the closest
    // stand-in for an undefined result.
    assert!(!approx_zero(Vec3::new(Fx::from_raw(i64::MIN), fx(0.0), fx(0.0))));
}

#[test]
fn small_not_approx_zero() {
    assert!(!approx_zero(v3(0.001, 0.0, 0.0)));
}

#[test]
fn one_not_approx_eq_zero() {
    assert!(!approx_eq(Vec3::one(), zero()));
}

#[test]
fn pi_not_approx_eq_frac() {
    let a = Vec3::splat(fx(std::f64::consts::PI));
    let b = Vec3::splat(fx(22.0 / 7.0));
    assert!(!approx_eq(a, b));
}

#[test]
fn wide_tolerance_accepts_small_gap() {
    assert!(approx_zero_with_error(v3(0.001, 0.0, 0.0), fx(0.01)));
    assert!(approx_eq_with_error(v3(1.0, 0.0, 0.0), v3(1.001, 0.0, 0.0), fx(0.01)));
}
