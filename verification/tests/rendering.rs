use raytracer::camera::{linear_to_gamma, sample, to_rgb, Camera, CameraParams};
use raytracer::fixed::Fx;
use raytracer::hittable::{Hittable, HittableList, Primitive, Sphere};
use raytracer::material::{Lambertian, MaterialKind, Metal};
use raytracer::random::{random_colour, SeededRng};
use raytracer::ray::Ray;
use raytracer::vec::Vec3;

fn fx(v: f64) -> Fx {
    Fx::from_raw((v * 4294967296.0).round() as i64)
}

fn v3(x: f64, y: f64, z: f64) -> Vec3 {
    Vec3::new(fx(x), fx(y), fx(z))
}

fn grey() -> MaterialKind {
    MaterialKind::Lambertian(Lambertian::new(v3(0.5, 0.5, 0.5)))
}

#[test]
fn sample_with_zero_depth_is_black() {
    let mut world = HittableList::new();
    world.add(Primitive::Sphere(Sphere::new(v3(0.0, 0.0, -3.0), fx(1.0), grey())));
    let ray = Ray::new(v3(0.0, 0.0, 0.0), v3(0.0, 0.0, -1.0));
    let mut rng = SeededRng::with_seed(1);

    assert_eq!(sample(&world, &ray, 0, &mut rng), Vec3::zero());
}

#[test]
fn empty_scene_samples_the_background_gradient() {
    let world = HittableList::new();
    let mut rng = SeededRng::with_seed(2);

    // Straight up: the blend lands fully on the sky color.
    let up = Ray::new(v3(0.0, 0.0, 0.0), v3(0.0, 1.0, 0.0));
    let sky = Vec3::new(
        Fx::from_raw(2147483648),
        Fx::from_raw(3006477107),
        Fx::from_raw(4294967296),
    );
    assert_eq!(sample(&world, &up, 8, &mut rng), sky);

    // Straight down: fully on white.
    let down = Ray::new(v3(0.0, 0.0, 0.0), v3(0.0, -1.0, 0.0));
    assert_eq!(sample(&world, &down, 8, &mut rng), Vec3::one());

    // Level: the even blend of the two, exactly.
    let level = Ray::new(v3(0.0, 0.0, 0.0), v3(1.0, 0.0, 0.0));
    let blend = Vec3::new(
        Fx::from_raw(3221225472),
        Fx::from_raw(3650722201),
        Fx::from_raw(4294967296),
    );
    assert_eq!(sample(&world, &level, 8, &mut rng), blend);
}

#[test]
fn facing_mirrors_terminate_at_depth() {
    // Two zero-fuzz metal spheres trap the ray completely; the bounce
    // budget alone ends the recursion, and with the terminal estimate
    // being black, the whole product is exactly black.
    let mirror = MaterialKind::Metal(Metal::new(v3(0.8, 0.8, 0.8), fx(0.0)));
    let mut world = HittableList::new();
    world.add(Primitive::Sphere(Sphere::new(v3(0.0, 0.0, 1.0), fx(1.0), mirror)));
    world.add(Primitive::Sphere(Sphere::new(v3(0.0, 0.0, 4.0), fx(1.0), mirror)));
    let ray = Ray::new(v3(0.0, 0.0, 2.5), v3(0.0, 0.0, 1.0));
    let mut rng = SeededRng::with_seed(3);

    assert_eq!(sample(&world, &ray, 500, &mut rng), Vec3::zero());
}

#[test]
fn gamma_encoding_pins_black_and_white() {
    let two = fx(2.0);
    assert_eq!(to_rgb(Vec3::zero(), two), (0, 0, 0));
    assert_eq!(to_rgb(Vec3::one(), two), (255, 255, 255));
    // Overbright channels clamp to the top byte.
    assert_eq!(to_rgb(Vec3::splat(fx(7.5)), two), (255, 255, 255));
    // Negative radiance encodes as black.
    assert_eq!(to_rgb(v3(-1.0, -0.5, 0.0), two), (0, 0, 0));
    // One is a fixed point of gamma correction, exactly.
    assert_eq!(linear_to_gamma(fx(1.0), two), fx(1.0));
}

#[test]
fn gamma_two_takes_square_roots() {
    let two = fx(2.0);
    // 0.25 ^ (1/2) comes out as exactly 0.5 in fixed point.
    assert_eq!(linear_to_gamma(fx(0.25), two), fx(0.5));
    assert_eq!(to_rgb(Vec3::splat(fx(0.25)), two), (128, 128, 128));
    // 0.5 ^ (1/2): the truncated series' value, encoded.
    assert_eq!(to_rgb(Vec3::splat(fx(0.5)), two), (181, 181, 181));
}

#[test]
fn default_camera_derives_the_documented_viewport() {
    // With the default square image, a 90 degree field of view and unit
    // focal length: the basis comes out exactly axis-aligned, the
    // viewport edges have length 2 tan(45 degrees) as the approximation
    // computes it, and with no defocus angle the disk basis is zero.
    let camera = Camera::new(&CameraParams::default());
    let edge = Fx::from_raw(8586285582);

    assert_eq!(camera.viewport_u, Vec3::new(edge.neg(), fx(0.0), fx(0.0)));
    assert_eq!(camera.viewport_v, Vec3::new(fx(0.0), edge.neg(), fx(0.0)));
    assert_eq!(
        camera.top_left,
        Vec3::new(Fx::from_raw(4293142791), Fx::from_raw(4293142791), fx(1.0)),
    );
    assert_eq!(camera.defocus_u, Vec3::zero());
    assert_eq!(camera.defocus_v, Vec3::zero());
    assert_eq!(camera.position, Vec3::zero());
}

#[test]
fn render_is_reproducible_for_a_seed() {
    let mut params = CameraParams::default();
    params.width = 4;
    params.height = 3;
    params.samples_per_pixel = 2;
    params.max_depth = 4;
    let camera = Camera::new(&params);

    let mut world = HittableList::new();
    world.add(Primitive::Sphere(Sphere::new(v3(0.0, 0.0, 3.0), fx(1.0), grey())));

    let first = camera.render(&world, &mut SeededRng::with_seed(42));
    let second = camera.render(&world, &mut SeededRng::with_seed(42));
    assert_eq!(first.len(), 3 * 4 * 3);
    assert_eq!(first, second);
}

#[test]
fn camera_carries_its_configuration() {
    let mut params = CameraParams::default();
    params.width = 8;
    params.height = 6;
    params.samples_per_pixel = 3;
    params.max_depth = 9;
    params.gamma = fx(2.2);
    let camera = Camera::from(&params);

    assert_eq!(camera.width, 8);
    assert_eq!(camera.height, 6);
    assert_eq!(camera.samples_per_pixel, 3);
    assert_eq!(camera.max_depth, 9);
    assert_eq!(camera.gamma, fx(2.2));
    assert_eq!(camera.position, Vec3::zero());
}

#[test]
fn default_camera_parameters_are_documented_ones() {
    let params = CameraParams::default();
    assert_eq!(params.vfov, fx(90.0));
    assert_eq!(params.defocus_angle, fx(0.0));
    assert_eq!(params.focal_length, fx(1.0));
    assert_eq!(params.position, Vec3::zero());
    assert_eq!(params.forward, v3(0.0, 0.0, 1.0));
    assert_eq!(params.up, v3(0.0, 1.0, 0.0));
    assert_eq!(params.width, 1024);
    assert_eq!(params.height, 1024);
    assert_eq!(params.samples_per_pixel, 16);
    assert_eq!(params.max_depth, 64);
    assert_eq!(params.gamma, fx(2.0));
}

#[test]
fn near_sphere_apex_maps_to_half_normal_plus_half() {
    // The end-to-end geometry of the classic first scene: a unit-radius
    // half sphere ahead plus a giant ground sphere. The center ray
    // strikes the near sphere's apex; the normal-to-color mapping
    // 0.5 * (normal + 1) lands exactly on (0.5, 0.5, 1).
    let mut world = HittableList::new();
    world.add(Primitive::Sphere(Sphere::new(v3(0.0, 0.0, -1.0), fx(0.5), grey())));
    world.add(Primitive::Sphere(Sphere::new(v3(0.0, -100.5, -1.0), fx(100.0), grey())));
    let ray = Ray::new(v3(0.0, 0.0, 0.0), v3(0.0, 0.0, -1.0));

    let hit = world.hit(&ray, fx(0.0), Fx::from_raw(i64::MAX)).expect("must strike");
    assert_eq!(hit.distance, fx(0.5));
    assert_eq!(hit.normal, v3(0.0, 0.0, 1.0));
    let color = hit.normal.add(Vec3::one()).scale(fx(0.5));
    assert_eq!(color, v3(0.5, 0.5, 1.0));
}

#[test]
fn seeded_draws_are_in_range_and_reproducible() {
    let mut a = SeededRng::with_seed(123);
    let mut b = SeededRng::with_seed(123);
    for _ in 0..100 {
        let ca = random_colour(&mut a);
        let cb = random_colour(&mut b);
        assert_eq!(ca, cb);
        for raw in [ca.x.raw, ca.y.raw, ca.z.raw] {
            assert!(0 <= raw && raw < 4294967296);
        }
    }
}
