use raytracer::fixed::Fx;
use raytracer::ray::Ray;
use raytracer::vec::{approx_eq, Vec3};

/// A fixed-point value from a float, for writing test constants.
fn fx(v: f64) -> Fx {
    Fx::from_raw((v * 4294967296.0).round() as i64)
}

fn v3(x: f64, y: f64, z: f64) -> Vec3 {
    Vec3::new(fx(x), fx(y), fx(z))
}

#[test]
fn create_ray() {
    let ray = Ray::new(v3(1.0, 2.0, 3.0), v3(1.0, 0.0, 0.0));

    assert!(approx_eq(ray.origin, v3(1.0, 2.0, 3.0)));
    assert!(approx_eq(ray.direction, v3(1.0, 0.0, 0.0)));
}

#[test]
fn advance_normal_ray() {
    let ray = Ray::new(v3(4.0, 5.0, 6.0), v3(-1.0, 0.0, 0.0));

    assert!(approx_eq(ray.at(fx(4.0)), v3(0.0, 5.0, 6.0)));
}

#[test]
fn advance_unnormal_ray() {
    let ray = Ray::new(v3(4.0, 5.0, 6.0), v3(1.0, 1.0, 0.0));

    assert!(approx_eq(
        ray.at(fx(2.0)),
        v3(4.0 + 2.0f64.sqrt(), 5.0 + 2.0f64.sqrt(), 6.0),
    ));
}

#[test]
fn ray_at_axis_aligned_is_exact() {
    let ray = Ray::new(v3(4.0, 5.0, 6.0), v3(-1.0, 0.0, 0.0));

    // Axis-aligned directions normalize exactly, so the formula
    // origin + direction * t holds with no rounding at all.
    assert_eq!(ray.direction, v3(-1.0, 0.0, 0.0));
    assert_eq!(ray.at(fx(4.0)), v3(0.0, 5.0, 6.0));
    assert_eq!(ray.at(fx(-2.0)), v3(6.0, 5.0, 6.0));
}
