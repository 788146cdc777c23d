use raytracer::fixed::Fx;
use raytracer::hittable::{Hittable, Sphere};
use raytracer::material::{Custom, Dielectric, Lambertian, Material, MaterialKind, Metal, Rainbow};
use raytracer::random::SeededRng;
use raytracer::ray::Ray;
use raytracer::vec::Vec3;

fn fx(v: f64) -> Fx {
    Fx::from_raw((v * 4294967296.0).round() as i64)
}

fn v3(x: f64, y: f64, z: f64) -> Vec3 {
    Vec3::new(fx(x), fx(y), fx(z))
}

fn far() -> Fx {
    Fx::from_raw(i64::MAX)
}

/// A hit on the front of a unit sphere straight ahead.
fn front_hit(material: MaterialKind) -> (Ray, raytracer::hittable::Hit) {
    let sphere = Sphere::new(v3(0.0, 0.0, -3.0), fx(1.0), material);
    let ray = Ray::new(v3(0.0, 0.0, 0.0), v3(0.0, 0.0, -1.0));
    let hit = sphere.hit(&ray, fx(0.0), far()).expect("must strike");
    (ray, hit)
}

/// A hit from inside the same sphere, leaving the medium.
fn back_hit(material: MaterialKind) -> (Ray, raytracer::hittable::Hit) {
    let sphere = Sphere::new(v3(0.0, 0.0, -3.0), fx(1.0), material);
    let ray = Ray::new(v3(0.0, 0.0, -3.0), v3(0.0, 0.0, -1.0));
    let hit = sphere.hit(&ray, fx(0.0), far()).expect("must strike");
    (ray, hit)
}

#[test]
fn dielectric_attenuation_is_identity_entering() {
    let glass = Dielectric::new(fx(1.5));
    let (ray, hit) = front_hit(MaterialKind::Dielectric(glass));
    let mut rng = SeededRng::with_seed(7);

    for _ in 0..32 {
        let (attenuation, continuation) =
            glass.scatter(&ray, &hit, &mut rng).expect("glass never absorbs");
        assert_eq!(attenuation, Vec3::one());
        assert!(continuation.is_some());
    }
}

#[test]
fn dielectric_attenuation_is_identity_leaving() {
    let glass = Dielectric::new(fx(1.5));
    let (ray, hit) = back_hit(MaterialKind::Dielectric(glass));
    assert!(!hit.front_face);
    let mut rng = SeededRng::with_seed(11);

    for _ in 0..32 {
        let (attenuation, continuation) =
            glass.scatter(&ray, &hit, &mut rng).expect("glass never absorbs");
        assert_eq!(attenuation, Vec3::one());
        assert!(continuation.is_some());
    }
}

#[test]
fn metal_overlarge_fuzz_equals_fuzz_one() {
    let albedo = v3(0.7, 0.6, 0.5);
    let wild = Metal::new(albedo, fx(5.0));
    let one = Metal::new(albedo, fx(1.0));

    // The clamp happens at construction, so the two values are equal
    // outright and behave identically everywhere.
    assert_eq!(wild, one);
    assert_eq!(wild.fuzz, fx(1.0));

    let low = Metal::new(albedo, fx(-3.0));
    assert_eq!(low.fuzz, fx(0.0));
}

#[test]
fn zero_fuzz_metal_reflects_exactly() {
    let mirror = Metal::new(v3(0.8, 0.8, 0.8), fx(0.0));
    let (ray, hit) = front_hit(MaterialKind::Metal(mirror));
    let mut rng = SeededRng::with_seed(3);

    let (attenuation, continuation) =
        mirror.scatter(&ray, &hit, &mut rng).expect("metal always scatters");
    let bounced = continuation.expect("metal always continues");
    assert_eq!(attenuation, v3(0.8, 0.8, 0.8));
    // Straight-on reflection about the (0, 0, 1) normal sends the ray
    // straight back.
    assert_eq!(bounced.direction, v3(0.0, 0.0, 1.0));
    assert_eq!(bounced.origin, hit.point);
}

#[test]
fn lambertian_scatter_keeps_albedo_and_continues() {
    let diffuse = Lambertian::new(v3(0.4, 0.2, 0.1));
    let (ray, hit) = front_hit(MaterialKind::Lambertian(diffuse));
    let mut rng = SeededRng::with_seed(5);

    for _ in 0..32 {
        let (attenuation, continuation) =
            diffuse.scatter(&ray, &hit, &mut rng).expect("diffuse never absorbs");
        assert_eq!(attenuation, v3(0.4, 0.2, 0.1));
        let bounced = continuation.expect("diffuse always continues");
        assert_eq!(bounced.origin, hit.point);
    }
}

#[test]
fn rainbow_emits_without_continuation() {
    let pattern = Rainbow::new();
    let mut hit = front_hit(MaterialKind::Rainbow(pattern)).1;
    // At the origin every channel's sine is zero, and a zero vector
    // normalizes to itself: the emitted color is exactly black.
    hit.point = Vec3::zero();
    let ray = Ray::new(v3(0.0, 0.0, 0.0), v3(0.0, 0.0, -1.0));
    let mut rng = SeededRng::with_seed(9);

    let (color, continuation) =
        pattern.scatter(&ray, &hit, &mut rng).expect("the emitter always answers");
    assert!(continuation.is_none());
    assert_eq!(color, Vec3::zero());
}

#[test]
fn custom_fractal_emits_without_continuation() {
    let material = Custom::new();
    let mut hit = front_hit(MaterialKind::Custom(material)).1;
    hit.point = Vec3::zero();
    let ray = Ray::new(v3(0.0, 0.0, 0.0), v3(0.0, 0.0, -1.0));
    let mut rng = SeededRng::with_seed(13);

    // A pattern emitter: it never continues the path.
    let (color, continuation) =
        material.scatter(&ray, &hit, &mut rng).expect("the pattern always answers");
    assert!(continuation.is_none());
    // Seeded at the origin, every Newton step divides by zero, which the
    // saturating arithmetic pins at zero: the color is exactly black.
    assert_eq!(color, Vec3::zero());
}

#[test]
fn material_kind_dispatches_each_variant() {
    let (ray, hit) = front_hit(MaterialKind::Dielectric(Dielectric::new(fx(1.5))));
    let mut rng = SeededRng::with_seed(17);

    let kinds = [
        MaterialKind::Lambertian(Lambertian::new(v3(0.5, 0.5, 0.5))),
        MaterialKind::Metal(Metal::new(v3(0.5, 0.5, 0.5), fx(0.1))),
        MaterialKind::Dielectric(Dielectric::new(fx(1.5))),
        MaterialKind::Rainbow(Rainbow::new()),
        MaterialKind::Custom(Custom::new()),
    ];
    for kind in kinds.iter() {
        assert!(kind.scatter(&ray, &hit, &mut rng).is_some());
    }
}
