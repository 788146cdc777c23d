use std::sync::Arc;

use raytracer::fixed::Fx;
use raytracer::hittable::{Hittable, HittableList, Mandelbulb, Primitive, Sphere};
use raytracer::material::{Lambertian, MaterialKind};
use raytracer::ray::Ray;
use raytracer::vec::Vec3;

fn fx(v: f64) -> Fx {
    Fx::from_raw((v * 4294967296.0).round() as i64)
}

fn v3(x: f64, y: f64, z: f64) -> Vec3 {
    Vec3::new(fx(x), fx(y), fx(z))
}

fn grey() -> MaterialKind {
    MaterialKind::Lambertian(Lambertian::new(v3(0.5, 0.5, 0.5)))
}

fn far() -> Fx {
    Fx::from_raw(i64::MAX)
}

#[test]
fn sphere_two_roots_returns_nearest() {
    // A ray aimed straight at the center from outside: roots at 2 and 4,
    // both positive; the nearer one comes back for min = 0.
    let sphere = Sphere::new(v3(0.0, 0.0, -3.0), fx(1.0), grey());
    let ray = Ray::new(v3(0.0, 0.0, 0.0), v3(0.0, 0.0, -1.0));

    let hit = sphere.hit(&ray, fx(0.0), far()).expect("must strike");
    assert_eq!(hit.distance, fx(2.0));

    // With the near root excluded by the interval, the far root at 4
    // comes back instead.
    let second = sphere.hit(&ray, fx(3.0), far()).expect("must strike");
    assert_eq!(second.distance, fx(4.0));
}

#[test]
fn sphere_miss_yields_no_hit() {
    // Closest approach 3 against radius 1: no intersection at all.
    let sphere = Sphere::new(v3(0.0, 0.0, -3.0), fx(1.0), grey());
    let ray = Ray::new(v3(0.0, 0.0, 0.0), v3(0.0, 1.0, 0.0));

    assert!(sphere.hit(&ray, fx(0.0), far()).is_none());
}

#[test]
fn sphere_outward_normal_faces_the_ray() {
    let sphere = Sphere::new(v3(0.0, 0.0, -3.0), fx(1.0), grey());

    // From outside: the unflipped outward normal already faces the ray.
    let outside = Ray::new(v3(0.0, 0.0, 0.0), v3(0.0, 0.0, -1.0));
    let hit = sphere.hit(&outside, fx(0.0), far()).expect("must strike");
    assert!(hit.front_face);
    assert_eq!(hit.point, v3(0.0, 0.0, -2.0));
    assert_eq!(hit.normal, v3(0.0, 0.0, 1.0));

    // From the center: the outward normal points away from the ray and
    // is stored flipped, with front_face false.
    let inside = Ray::new(v3(0.0, 0.0, -3.0), v3(0.0, 0.0, -1.0));
    let hit2 = sphere.hit(&inside, fx(0.0), far()).expect("must strike");
    assert!(!hit2.front_face);
    assert_eq!(hit2.point, v3(0.0, 0.0, -4.0));
    assert_eq!(hit2.normal, v3(0.0, 0.0, 1.0));
}

#[test]
fn scene_returns_strictly_closer_sphere_in_either_order() {
    let near = Primitive::Sphere(Sphere::new(v3(0.0, 0.0, -3.0), fx(1.0), grey()));
    let sunken = Primitive::Sphere(Sphere::new(v3(0.0, 0.0, -6.0), fx(1.0), grey()));
    let ray = Ray::new(v3(0.0, 0.0, 0.0), v3(0.0, 0.0, -1.0));

    let mut forward = HittableList::new();
    forward.add(near);
    forward.add(sunken);
    let mut backward = HittableList::new();
    backward.add(sunken);
    backward.add(near);

    let a = forward.hit(&ray, fx(0.0), far()).expect("must strike");
    let b = backward.hit(&ray, fx(0.0), far()).expect("must strike");
    assert_eq!(a.distance, fx(2.0));
    assert_eq!(b.distance, fx(2.0));
    assert_eq!(a, b);
}

#[test]
fn empty_scene_never_hits() {
    let world = HittableList::new();
    let ray = Ray::new(v3(0.0, 0.0, 0.0), v3(0.0, 0.0, -1.0));
    assert!(world.hit(&ray, fx(0.0), far()).is_none());
}

#[test]
fn scene_add_shared_and_clear() {
    let mut world = HittableList::new();
    let sphere = Primitive::Sphere(Sphere::new(v3(0.0, 0.0, -3.0), fx(1.0), grey()));
    world.add_shared(Arc::new(sphere));

    let ray = Ray::new(v3(0.0, 0.0, 0.0), v3(0.0, 0.0, -1.0));
    assert!(world.hit(&ray, fx(0.0), far()).is_some());

    world.clear();
    assert!(world.hit(&ray, fx(0.0), far()).is_none());
}

#[test]
fn scene_from_keeps_order() {
    let near = Primitive::Sphere(Sphere::new(v3(0.0, 0.0, -3.0), fx(1.0), grey()));
    let sunken = Primitive::Sphere(Sphere::new(v3(0.0, 0.0, -6.0), fx(1.0), grey()));
    let world = HittableList::from(vec![sunken, near]);

    let ray = Ray::new(v3(0.0, 0.0, 0.0), v3(0.0, 0.0, -1.0));
    let hit = world.hit(&ray, fx(0.0), far()).expect("must strike");
    assert_eq!(hit.distance, fx(2.0));
}

#[test]
fn mandelbulb_hit_reports_ray_parameters() {
    let bulb = Mandelbulb::new(fx(8.0));
    let ray = Ray::new(v3(0.0, 0.0, 2.0), v3(0.0, 0.0, -1.0));

    match bulb.hit(&ray, fx(0.001), fx(10.0)) {
        Some(hit) => {
            // The normal is the ray direction itself (a documented
            // simplification), never flipped.
            assert_eq!(hit.normal, ray.direction);
            assert!(!hit.front_face);
            // The distance is a real ray parameter inside the interval,
            // and the shading field carries the normalized step count.
            assert!(fx(0.001).raw < hit.distance.raw && hit.distance.raw < fx(10.0).raw);
            assert!(0 <= hit.shade.raw && hit.shade.raw < fx(1.0).raw);
        },
        None => panic!("the marcher must reach the surface"),
    }
}
