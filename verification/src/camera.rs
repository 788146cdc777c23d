//! The camera: viewport setup, per-pixel sampling, the recursive radiance
//! estimate, and color encoding.

use crate::fixed::{
    clip, fx_add, fx_div, fx_mul, Fx, HALF_RAW, SCALE,
};
use crate::hittable::hittablelist::{lemma_empty_scene_misses, scan_hits, HittableList};
use crate::hittable::{Hit, Hittable, Primitive};
use crate::material::Material;
use crate::random::{random_on_disc, random_square, SeededRng};
use crate::ray::Ray;
use crate::trans::{pow_fx, tan_fx, DEG_RAW};
use crate::vec::{
    v_add, v_cross, v_div, v_len, v_len_sq, v_lerp, v_mul, v_neg, v_norm, v_scale, v_sub,
    vec3_of, Vec3, V3,
};
use vstd::prelude::*;

verus! {

/// Raw green channel of the sky color (0.7); the sky is
/// `(0.5, 0.7, 1.0)`.
pub const SKY_G_RAW: i64 = 3006477107;

/// Raw lower bound of every radiance query (about 1e-9), which keeps a
/// bounced ray from striking the surface it just left.
pub const RAY_MIN_RAW: i64 = 4;

/// Raw quantization ceiling (0.999): channels are clamped below one
/// before scaling to a byte.
pub const CLAMP_MAX_RAW: i64 = 4290672328;

/// Raw units per byte step: one 256th.
pub const BYTE_UNIT_RAW: i64 = 16777216;

/// The background gradient: a vertical blend from white to sky blue by
/// the ray direction's height.
pub open spec fn background_spec(ray: Ray) -> V3 {
    let a = fx_mul(HALF_RAW as int, fx_add(ray.direction@.1, SCALE as int));
    v_lerp(
        (SCALE as int, SCALE as int, SCALE as int),
        (HALF_RAW as int, SKY_G_RAW as int, SCALE as int),
        a,
    )
}

/// Gamma correction of one positive channel: `data` raised to
/// `1 / gamma`; zero for anything nonpositive.
pub open spec fn gamma_fx(data: int, gamma: int) -> int {
    if data > 0 {
        pow_fx(data, fx_div(SCALE as int, gamma))
    } else {
        0
    }
}

/// One encoded channel: gamma-corrected, clamped into `[0, 0.999]`, and
/// scaled to a byte.
pub open spec fn byte_fx(x: int, gamma: int) -> int {
    let g = gamma_fx(x, gamma);
    let c = if g < 0 {
        0
    } else if g > CLAMP_MAX_RAW as int {
        CLAMP_MAX_RAW as int
    } else {
        g
    };
    c / (BYTE_UNIT_RAW as int)
}

/// The three encoded channels of a linear color.
pub open spec fn rgb_of(lin: V3, gamma: int) -> (int, int, int) {
    (byte_fx(lin.0, gamma), byte_fx(lin.1, gamma), byte_fx(lin.2, gamma))
}

/// An estimate continued through a bounce: some deeper estimate of the
/// bounce ray `nr`, itself satisfying the radiance relation at
/// `rest_depth`, scaled by the attenuation `att`.
pub open spec fn attenuated_estimate(
    objs: Seq<Primitive>,
    nr: Ray,
    rest_depth: nat,
    att: V3,
    out: V3,
) -> bool
    decreases rest_depth, 1int,
{
    exists|rest: V3|
        radiance_rel(objs, nr, rest_depth, rest) && out == #[trigger] v_mul(att, rest)
}

/// How a radiance estimate follows from one scatter result at a strike:
/// zero on absorption, the attenuation itself without a continuation,
/// or an attenuated deeper estimate of the continuation ray.
pub open spec fn radiance_case(
    objs: Seq<Primitive>,
    ray: Ray,
    rest_depth: nat,
    h: Hit,
    sc: Option<(Vec3, Option<Ray>)>,
    out: V3,
) -> bool
    decreases rest_depth, 2int,
{
    match sc {
        None => out == (0int, 0int, 0int),
        Some(pair) => match pair.1 {
            None => out == pair.0@,
            Some(nr) => attenuated_estimate(objs, nr, rest_depth, pair.0@, out),
        },
    }
}

/// A strike accounted for: some scatter result admitted by the struck
/// material explains the estimate.
pub open spec fn radiance_hit(
    objs: Seq<Primitive>,
    ray: Ray,
    rest_depth: nat,
    h: Hit,
    out: V3,
) -> bool
    decreases rest_depth, 3int,
{
    exists|sc: Option<(Vec3, Option<Ray>)>|
        #[trigger] h.material.scatter_ok(ray, h, sc) && radiance_case(
            objs,
            ray,
            rest_depth,
            h,
            sc,
            out,
        )
}

/// The full radiance relation, by remaining bounce budget. A zero
/// budget contributes nothing. Otherwise the nearest strike of the scene
/// decides: no strike gives the background gradient exactly; a strike
/// must be accounted for by some admitted scatter result
/// (`radiance_hit`). Opaque: callers reason about it as a relation;
/// `sample` establishes it level by level.
#[verifier::opaque]
pub open spec fn radiance_rel(objs: Seq<Primitive>, ray: Ray, depth: nat, out: V3) -> bool
    decreases depth, 0int,
{
    if depth == 0 {
        out == (0int, 0int, 0int)
    } else {
        match scan_hits(objs, ray, RAY_MIN_RAW as int, i64::MAX as int) {
            None => out == background_spec(ray),
            Some(h) => radiance_hit(objs, ray, (depth - 1) as nat, h, out),
        }
    }
}

/// A zero bounce budget admits exactly the zero estimate.
proof fn lemma_radiance_zero(objs: Seq<Primitive>, ray: Ray)
    ensures
        radiance_rel(objs, ray, 0, (0int, 0int, 0int)),
{
    reveal(radiance_rel);
}

/// A ray that strikes nothing admits exactly the background gradient.
proof fn lemma_radiance_miss(objs: Seq<Primitive>, ray: Ray, depth: nat)
    requires
        depth > 0,
        scan_hits(objs, ray, RAY_MIN_RAW as int, i64::MAX as int) is None,
    ensures
        radiance_rel(objs, ray, depth, background_spec(ray)),
{
    reveal(radiance_rel);
}

/// One level of the radiance relation, from an accounted-for strike.
proof fn lemma_radiance_step(
    objs: Seq<Primitive>,
    ray: Ray,
    depth: nat,
    h: Hit,
    out: V3,
)
    requires
        depth > 0,
        scan_hits(objs, ray, RAY_MIN_RAW as int, i64::MAX as int) == Some(h),
        radiance_hit(objs, ray, (depth - 1) as nat, h, out),
    ensures
        radiance_rel(objs, ray, depth, out),
{
    reveal(radiance_rel);
}

/// A strike, an admitted scatter result, and an estimate matching its
/// case together establish the radiance relation.
proof fn lemma_sample_hit_accounted(
    objs: Seq<Primitive>,
    ray: Ray,
    depth: nat,
    h: Hit,
    sc: Option<(Vec3, Option<Ray>)>,
    out: V3,
)
    requires
        depth > 0,
        scan_hits(objs, ray, RAY_MIN_RAW as int, i64::MAX as int) == Some(h),
        h.material.scatter_ok(ray, h, sc),
        radiance_case(objs, ray, (depth - 1) as nat, h, sc, out),
    ensures
        radiance_rel(objs, ray, depth, out),
{
    assert(radiance_hit(objs, ray, (depth - 1) as nat, h, out)) by {
        assert(h.material.scatter_ok(ray, h, sc) && radiance_case(
            objs,
            ray,
            (depth - 1) as nat,
            h,
            sc,
            out,
        ));
    }
    lemma_radiance_step(objs, ray, depth, h, out);
}

/// The recursive radiance estimate for one ray.
///
/// A zero bounce budget contributes no light at all. Otherwise the
/// nearest hit beyond `RAY_MIN_RAW` scatters: absorption ends the path
/// dark, a scatter without continuation emits its attenuation, and a
/// continuation recurses one level shallower and attenuates the result.
/// A ray that strikes nothing returns the background gradient exactly.
pub fn sample(world: &HittableList, ray: &Ray, depth: u32, rng: &mut SeededRng) -> (out: Vec3)
    ensures
        radiance_rel(world.objects@, *ray, depth as nat, out@),
        depth == 0 ==> out@ == (0int, 0int, 0int),
        depth > 0 && scan_hits(world.objects@, *ray, RAY_MIN_RAW as int, i64::MAX as int)
            is None ==> out@ == background_spec(*ray),
    decreases depth,
{
    // No light once the bounce budget is exhausted.
    if depth == 0 {
        proof {
            lemma_radiance_zero(world.objects@, *ray);
        }
        return Vec3::zero();
    }
    // The tiny lower bound avoids re-intersecting the surface the ray
    // just left.
    match world.hit(ray, Fx { raw: RAY_MIN_RAW }, Fx { raw: i64::MAX }) {
        Some(hit) => {
            let sc = hit.material.scatter(ray, &hit, rng);
            let ghost sc_snap = sc;
            match sc {
                Some(pair) => {
                    let (attenuation, potential_ray) = pair;
                    match potential_ray {
                        Some(new_ray) => {
                            let rest = sample(world, &new_ray, depth - 1, rng);
                            let out = attenuation.mul(rest);
                            proof {
                                assert(sc_snap == Some((attenuation, Some(new_ray))));
                                assert(attenuated_estimate(
                                    world.objects@,
                                    new_ray,
                                    (depth - 1) as nat,
                                    attenuation@,
                                    out@,
                                )) by {
                                    reveal(radiance_rel);
                                    assert(radiance_rel(
                                        world.objects@,
                                        new_ray,
                                        (depth - 1) as nat,
                                        rest@,
                                    ) && out@ == v_mul(attenuation@, rest@));
                                }
                                lemma_sample_hit_accounted(
                                    world.objects@,
                                    *ray,
                                    depth as nat,
                                    hit,
                                    sc_snap,
                                    out@,
                                );
                            }
                            out
                        },
                        None => {
                            proof {
                                lemma_sample_hit_accounted(
                                    world.objects@,
                                    *ray,
                                    depth as nat,
                                    hit,
                                    sc_snap,
                                    attenuation@,
                                );
                            }
                            attenuation
                        },
                    }
                },
                None => {
                    let out = Vec3::zero();
                    proof {
                        lemma_sample_hit_accounted(
                            world.objects@,
                            *ray,
                            depth as nat,
                            hit,
                            sc_snap,
                            out@,
                        );
                    }
                    out
                },
            }
        },
        None => {
            // Background: a vertical white-to-blue gradient.
            let a = Fx { raw: HALF_RAW }.mul(ray.direction.y.add(Fx::one()));
            let out = Vec3::one().lerp(
                Vec3::new(Fx { raw: HALF_RAW }, Fx { raw: SKY_G_RAW }, Fx::one()),
                a,
            );
            proof {
                lemma_radiance_miss(world.objects@, *ray, depth as nat);
            }
            out
        },
    }
}

/// In an empty scene no radiance query ever strikes geometry, so by the
/// contract of `sample` every pixel's color is the analytic background
/// gradient of its ray.
pub proof fn lemma_empty_scene_sample_is_background(world: HittableList, ray: Ray)
    requires
        world.objects@.len() == 0,
    ensures
        scan_hits(world.objects@, ray, RAY_MIN_RAW as int, i64::MAX as int) is None,
{
    lemma_empty_scene_misses(world.objects@, ray, RAY_MIN_RAW as int, i64::MAX as int);
}

/// Gamma correction of one channel.
pub fn linear_to_gamma(data: Fx, gamma: Fx) -> (r: Fx)
    ensures
        r@ == gamma_fx(data@, gamma@),
{
    if data.raw > 0 {
        data.powf(Fx::one().div(gamma))
    } else {
        Fx { raw: 0 }
    }
}

/// Encode a linear color into gamma-corrected bytes, one channel at a
/// time.
pub fn to_rgb(data: Vec3, gamma: Fx) -> (r: (u8, u8, u8))
    ensures
        (r.0 as int, r.1 as int, r.2 as int) == rgb_of(data@, gamma@),
{
    (byte_channel(data.x, gamma), byte_channel(data.y, gamma), byte_channel(data.z, gamma))
}

/// Encode one channel.
fn byte_channel(x: Fx, gamma: Fx) -> (r: u8)
    ensures
        r as int == byte_fx(x@, gamma@),
{
    let g = linear_to_gamma(x, gamma);
    let c = g.clamp(Fx { raw: 0 }, Fx { raw: CLAMP_MAX_RAW });
    (((c.raw as u64)) / (BYTE_UNIT_RAW as u64)) as u8
}

/// The configuration a camera is derived from; every field has a
/// documented default.
pub struct CameraParams {
    pub vfov: Fx,
    pub defocus_angle: Fx,
    pub focal_length: Fx,
    pub position: Vec3,
    pub forward: Vec3,
    pub up: Vec3,
    pub width: u32,
    pub height: u32,
    pub samples_per_pixel: u32,
    pub max_depth: u32,
    pub gamma: Fx,
}

/// The documented defaults: a 90 degree field of view looking along +Z
/// with +Y up, no defocus, focal length one, a 1024 by 1024 image, 16
/// samples per pixel, 64 bounces, gamma two.
pub open spec fn default_params() -> CameraParams {
    CameraParams {
        vfov: crate::fixed::fx_of(90 * (SCALE as int)),
        defocus_angle: crate::fixed::fx_of(0),
        focal_length: crate::fixed::fx_of(SCALE as int),
        position: vec3_of((0int, 0int, 0int)),
        forward: vec3_of((0int, 0int, SCALE as int)),
        up: vec3_of((0int, SCALE as int, 0int)),
        width: 1024,
        height: 1024,
        samples_per_pixel: 16,
        max_depth: 64,
        gamma: crate::fixed::fx_of(2 * (SCALE as int)),
    }
}

/// What a camera accepts: nondegenerate image dimensions (bounded so a
/// whole image fits comfortably in memory), at least one sample per
/// pixel, and a basis that can actually be built — the forward vector
/// has measurable length, and the up vector is not parallel to it, so
/// the right vector has measurable length too. Degenerate
/// configurations are rejected here, at construction, not discovered
/// per ray.
pub open spec fn params_valid(p: CameraParams) -> bool {
    &&& 1 <= p.width <= 16384
    &&& 1 <= p.height <= 16384
    &&& 1 <= p.samples_per_pixel
    &&& v_len(p.forward@) > 0
    &&& v_len(v_cross(cam_basis_w(p), p.up@)) > 0
}

impl Default for CameraParams {
    /// The documented defaults.
    fn default() -> (r: CameraParams)
        ensures
            r == default_params(),
    {
        CameraParams {
            vfov: Fx::from_int(90),
            defocus_angle: Fx { raw: 0 },
            focal_length: Fx::one(),
            position: Vec3::zero(),
            forward: Vec3::new(Fx { raw: 0 }, Fx { raw: 0 }, Fx { raw: SCALE }),
            up: Vec3::new(Fx { raw: 0 }, Fx { raw: SCALE }, Fx { raw: 0 }),
            width: 1024,
            height: 1024,
            samples_per_pixel: 16,
            max_depth: 64,
            gamma: Fx::from_int(2),
        }
    }
}

/// The forward basis vector: the normalized forward direction.
pub open spec fn cam_basis_w(p: CameraParams) -> V3 {
    v_norm(p.forward@)
}

/// The right basis vector.
pub open spec fn cam_basis_u(p: CameraParams) -> V3 {
    v_norm(v_cross(cam_basis_w(p), p.up@))
}

/// The up basis vector.
pub open spec fn cam_basis_v(p: CameraParams) -> V3 {
    v_norm(v_cross(cam_basis_u(p), cam_basis_w(p)))
}

/// The viewport height `tan(vfov / 2) * 2 * focal_length`.
pub open spec fn cam_viewport_height(p: CameraParams) -> int {
    fx_mul(
        fx_mul(
            tan_fx(fx_div(fx_mul(p.vfov@, DEG_RAW as int), 2 * (SCALE as int))),
            2 * (SCALE as int),
        ),
        p.focal_length@,
    )
}

/// The viewport width: the height scaled by the aspect ratio.
pub open spec fn cam_viewport_width(p: CameraParams) -> int {
    fx_mul(
        cam_viewport_height(p),
        fx_div(clip(p.width * (SCALE as int)), clip(p.height * (SCALE as int))),
    )
}

/// The horizontal viewport edge.
pub open spec fn cam_viewport_u(p: CameraParams) -> V3 {
    v_scale(cam_basis_u(p), cam_viewport_width(p))
}

/// The vertical viewport edge, pointing down the image.
pub open spec fn cam_viewport_v(p: CameraParams) -> V3 {
    v_scale(v_neg(cam_basis_v(p)), cam_viewport_height(p))
}

/// The top-left sampling origin of the viewport.
pub open spec fn cam_top_left(p: CameraParams) -> V3 {
    v_sub(
        v_sub(
            v_add(p.position@, v_scale(cam_basis_w(p), p.focal_length@)),
            v_scale(cam_viewport_u(p), HALF_RAW as int),
        ),
        v_scale(cam_viewport_v(p), HALF_RAW as int),
    )
}

/// The defocus-disk radius `focal_length * tan(defocus_angle / 2)`.
pub open spec fn cam_defocus_radius(p: CameraParams) -> int {
    fx_mul(
        p.focal_length@,
        tan_fx(fx_mul(fx_div(p.defocus_angle@, 2 * (SCALE as int)), DEG_RAW as int)),
    )
}

/// The horizontal defocus-disk edge.
pub open spec fn cam_defocus_u(p: CameraParams) -> V3 {
    v_scale(cam_basis_u(p), cam_defocus_radius(p))
}

/// The vertical defocus-disk edge.
pub open spec fn cam_defocus_v(p: CameraParams) -> V3 {
    v_scale(cam_basis_v(p), cam_defocus_radius(p))
}

/// The camera a configuration derives to. Opaque: callers reason through
/// the constructor's contract and the field equalities below.
#[verifier::opaque]
pub open spec fn camera_from_params(p: CameraParams) -> Camera {
    Camera {
        position: p.position,
        viewport_u: vec3_of(cam_viewport_u(p)),
        viewport_v: vec3_of(cam_viewport_v(p)),
        defocus_u: vec3_of(cam_defocus_u(p)),
        defocus_v: vec3_of(cam_defocus_v(p)),
        top_left: vec3_of(cam_top_left(p)),
        width: p.width,
        height: p.height,
        samples_per_pixel: p.samples_per_pixel,
        max_depth: p.max_depth,
        gamma: p.gamma,
    }
}

/// The jitter pair of one sub-pixel sample: both offsets in
/// `[-0.5, 0.5)`.
pub open spec fn jitter_ok(d: (int, int)) -> bool {
    &&& -(SCALE as int) / 2 <= d.0 < (SCALE as int) / 2
    &&& -(SCALE as int) / 2 <= d.1 < (SCALE as int) / 2
}

/// The viewport coordinates of pixel `(x, y)` jittered by `d`: the pixel
/// center offset by the jitter, normalized by the image dimensions.
pub open spec fn uv_of(cam: Camera, x: u32, y: u32, d: (int, int)) -> (int, int) {
    (
        fx_div(
            fx_add(fx_add(clip(x * (SCALE as int)), HALF_RAW as int), d.0),
            clip(cam.width * (SCALE as int)),
        ),
        fx_div(
            fx_add(fx_add(clip(y * (SCALE as int)), HALF_RAW as int), d.1),
            clip(cam.height * (SCALE as int)),
        ),
    )
}

/// How a jittered pixel coordinate relates to the jitter that was drawn.
pub open spec fn uv_pick(cam: Camera, x: u32, y: u32, d: (int, int), uv: (int, int)) -> bool {
    jitter_ok(d) && uv == uv_of(cam, x, y, d)
}

/// A defocus-disk sample: both coordinates in `[-1, 1]`.
pub open spec fn disk_ok(s: (int, int)) -> bool {
    &&& -(SCALE as int) <= s.0 <= SCALE as int
    &&& -(SCALE as int) <= s.1 <= SCALE as int
}

/// The ray origin for the disk sample `s`: the camera position offset
/// along the defocus basis.
pub open spec fn defocus_origin(cam: Camera, s: (int, int)) -> V3 {
    v_add(
        v_add(cam.position@, v_scale(cam.defocus_u@, s.0)),
        v_scale(cam.defocus_v@, s.1),
    )
}

/// How a sampled ray origin relates to the disk sample that was drawn.
pub open spec fn origin_pick(cam: Camera, s: (int, int), r: V3) -> bool {
    disk_ok(s) && r == defocus_origin(cam, s)
}

/// Where on the viewport the coordinates `uv` land.
pub open spec fn ray_end(cam: Camera, uv: (int, int)) -> V3 {
    v_add(
        v_add(cam.top_left@, v_scale(cam.viewport_u@, uv.0)),
        v_scale(cam.viewport_v@, uv.1),
    )
}

/// How a generated ray relates to the disk sample that was drawn: it
/// starts on the defocus disk and heads at the viewport point.
pub open spec fn ray_pick(cam: Camera, uv: (int, int), s: (int, int), r: Ray) -> bool {
    &&& disk_ok(s)
    &&& r.origin@ == defocus_origin(cam, s)
    &&& r.direction@ == v_norm(v_sub(ray_end(cam, uv), defocus_origin(cam, s)))
}

/// One admitted sample at pixel `(x, y)`: a jitter pair `d` picks the
/// viewport coordinates, a disk pair `sd` picks the ray, the estimate
/// `est` satisfies the radiance relation at the camera's full bounce
/// budget, and the accumulator grows from `prev` by `est`.
pub open spec fn pixel_sample_step(
    cam: Camera,
    objs: Seq<Primitive>,
    x: u32,
    y: u32,
    prev: V3,
    d: (int, int),
    sd: (int, int),
    r: Ray,
    est: V3,
    acc: V3,
) -> bool {
    &&& jitter_ok(d)
    &&& ray_pick(cam, uv_of(cam, x, y, d), sd, r)
    &&& radiance_rel(objs, r, cam.max_depth as nat, est)
    &&& acc == v_add(prev, est)
}

/// The accumulated radiance of pixel `(x, y)` after `n` samples: a fold
/// of `n` admitted samples starting from zero.
pub open spec fn pixel_sum_rel(
    cam: Camera,
    objs: Seq<Primitive>,
    x: u32,
    y: u32,
    n: nat,
    acc: V3,
) -> bool
    decreases n,
{
    if n == 0 {
        acc == (0int, 0int, 0int)
    } else {
        exists|prev: V3, d: (int, int), sd: (int, int), r: Ray, est: V3|
            pixel_sum_rel(cam, objs, x, y, (n - 1) as nat, prev) && #[trigger] pixel_sample_step(
                cam,
                objs,
                x,
                y,
                prev,
                d,
                sd,
                r,
                est,
                acc,
            )
    }
}

/// The encoded value of pixel `(x, y)`: the gamma encoding of the mean
/// of `samples_per_pixel` admitted radiance estimates. Opaque: the
/// render loop passes it along whole; `render_pixel` establishes it.
#[verifier::opaque]
pub open spec fn pixel_bytes_ok(
    cam: Camera,
    objs: Seq<Primitive>,
    x: u32,
    y: u32,
    b0: int,
    b1: int,
    b2: int,
) -> bool {
    exists|acc: V3|
        #[trigger] pixel_sum_rel(cam, objs, x, y, cam.samples_per_pixel as nat, acc) && (
        b0,
        b1,
        b2,
        ) == rgb_of(
            v_div(acc, clip((cam.samples_per_pixel as int) * (SCALE as int))),
            cam.gamma@,
        )
}

/// Pixel `(x, y)` of a row-major byte buffer holds an admitted encoded
/// value.
pub open spec fn rendered_pixel(
    cam: Camera,
    objs: Seq<Primitive>,
    buf: Seq<u8>,
    x: u32,
    y: u32,
) -> bool {
    let base = 3 * ((y as int) * (cam.width as int) + (x as int));
    pixel_bytes_ok(
        cam,
        objs,
        x,
        y,
        buf[base] as int,
        buf[base + 1] as int,
        buf[base + 2] as int,
    )
}

/// Row-major ordering: any pixel before `(x, y)` in scan order has a
/// strictly smaller flat index.
proof fn lemma_row_major_order(w: int, x: int, y: int, x2: int, y2: int)
    requires
        0 <= x2 < w,
        0 <= y2,
        0 <= x,
        y2 < y || (y2 == y && x2 < x),
    ensures
        y2 * w + x2 < y * w + x,
        0 <= y2 * w + x2,
{
    if y2 < y {
        assert(y2 * w + x2 < y * w + x) by (nonlinear_arith)
            requires
                y2 + 1 <= y,
                0 <= x2 < w,
                0 <= x,
        ;
    }
    assert(0 <= y2 * w + x2) by (nonlinear_arith)
        requires
            0 <= y2,
            0 <= x2,
            0 < w,
    ;
}

/// An immutable viewport derived once from a configuration, plus the
/// sampling parameters of a render.
pub struct Camera {
    pub position: Vec3,
    pub viewport_u: Vec3,
    pub viewport_v: Vec3,
    pub defocus_u: Vec3,
    pub defocus_v: Vec3,
    pub top_left: Vec3,
    pub width: u32,
    pub height: u32,
    pub samples_per_pixel: u32,
    pub max_depth: u32,
    pub gamma: Fx,
}

impl Camera {
    /// Derive the viewport from a configuration: an orthonormal basis
    /// from the forward and up directions, viewport extents from the
    /// field of view and focal length, and a defocus-disk basis from the
    /// defocus angle. Degenerate image dimensions are rejected here, at
    /// construction.
    pub fn new(params: &CameraParams) -> (r: Camera)
        requires
            params_valid(*params),
        ensures
            r == camera_from_params(*params),
            params_valid(*params),
    {
        proof {
            reveal(camera_from_params);
        }
        let two = Fx::from_int(2);
        let half = Fx { raw: HALF_RAW };

        let aspect_ratio = Fx::from_int(params.width as i64).div(
            Fx::from_int(params.height as i64),
        );
        let viewport_height = params.vfov.to_radians().div(two).tan().mul(two).mul(
            params.focal_length,
        );
        let viewport_width = viewport_height.mul(aspect_ratio);

        // These must all be perpendicular to each other:
        // u right, v up, w forward.
        let w = params.forward.normalize();
        let u = w.cross(params.up).normalize();
        let v = u.cross(w).normalize();

        let viewport_u = u.scale(viewport_width);
        let viewport_v = v.neg().scale(viewport_height);

        let top_left = params.position.add(w.scale(params.focal_length)).sub(
            viewport_u.scale(half),
        ).sub(viewport_v.scale(half));

        let defocus_radius = params.focal_length.mul(
            params.defocus_angle.div(two).to_radians().tan(),
        );
        let defocus_u = u.scale(defocus_radius);
        let defocus_v = v.scale(defocus_radius);

        Camera {
            position: params.position,
            viewport_u,
            viewport_v,
            defocus_u,
            defocus_v,
            top_left,
            width: params.width,
            height: params.height,
            samples_per_pixel: params.samples_per_pixel,
            max_depth: params.max_depth,
            gamma: params.gamma,
        }
    }

    /// The camera of a configuration; the counterpart of `Camera::new`.
    pub fn from(value: &CameraParams) -> (r: Camera)
        requires
            params_valid(*value),
        ensures
            r == camera_from_params(*value),
    {
        Camera::new(value)
    }

    /// A ray origin drawn from the defocus disk.
    fn sample_defocus_disk(&self, rng: &mut SeededRng) -> (r: Vec3)
        ensures
            exists|s: (int, int)| #[trigger] origin_pick(*self, s, r@),
    {
        let scale = random_on_disc(rng);
        let out = self.position.add(self.defocus_u.scale(scale.0)).add(
            self.defocus_v.scale(scale.1),
        );
        proof {
            assert(origin_pick(*self, (scale.0@, scale.1@), out@));
        }
        out
    }

    /// The jittered viewport coordinates of pixel `(x, y)`, both near
    /// `[0, 1]`.
    fn get_uv(&self, x: u32, y: u32, rng: &mut SeededRng) -> (r: (Fx, Fx))
        ensures
            exists|d: (int, int)| #[trigger] uv_pick(*self, x, y, d, (r.0@, r.1@)),
    {
        let (dx, dy) = random_square(rng);
        let half = Fx { raw: HALF_RAW };
        let out = (
            Fx::from_int(x as i64).add(half).add(dx).div(Fx::from_int(self.width as i64)),
            Fx::from_int(y as i64).add(half).add(dy).div(Fx::from_int(self.height as i64)),
        );
        proof {
            assert(uv_pick(*self, x, y, (dx@, dy@), (out.0@, out.1@)));
        }
        out
    }

    /// The ray for the viewport coordinates `uv`: it starts on the
    /// defocus disk and heads at the matching viewport point.
    fn get_ray(&self, uv: (Fx, Fx), rng: &mut SeededRng) -> (r: Ray)
        ensures
            exists|s: (int, int)| #[trigger] ray_pick(*self, (uv.0@, uv.1@), s, r),
    {
        let end = self.top_left.add(self.viewport_u.scale(uv.0)).add(
            self.viewport_v.scale(uv.1),
        );
        let start = self.sample_defocus_disk(rng);
        let out = Ray::new(start, end.sub(start));
        proof {
            let s = choose|s: (int, int)| #[trigger] origin_pick(*self, s, start@);
            assert(ray_pick(*self, (uv.0@, uv.1@), s, out));
        }
        out
    }

    /// One pixel: average `samples_per_pixel` independent radiance
    /// estimates and encode the mean. The result is the encoding of some
    /// linear color under this camera's gamma.
    pub fn render_pixel(&self, world: &HittableList, x: u32, y: u32, rng: &mut SeededRng) -> (r:
        (u8, u8, u8))
        requires
            self.samples_per_pixel >= 1,
        ensures
            pixel_bytes_ok(
                *self,
                world.objects@,
                x,
                y,
                r.0 as int,
                r.1 as int,
                r.2 as int,
            ),
    {
        let mut out = Vec3::zero();
        let mut s: u32 = 0;
        while s < self.samples_per_pixel
            invariant
                s <= self.samples_per_pixel,
                pixel_sum_rel(*self, world.objects@, x, y, s as nat, out@),
            decreases self.samples_per_pixel - s,
        {
            let uv = self.get_uv(x, y, rng);
            let ray = self.get_ray(uv, rng);
            let est = sample(world, &ray, self.max_depth, rng);
            let ghost prev = out@;
            out = out.add(est);
            proof {
                let d = choose|d: (int, int)| #[trigger] uv_pick(*self, x, y, d, (uv.0@, uv.1@));
                let sd = choose|sd: (int, int)| #[trigger] ray_pick(
                    *self,
                    (uv.0@, uv.1@),
                    sd,
                    ray,
                );
                assert(pixel_sample_step(
                    *self,
                    world.objects@,
                    x,
                    y,
                    prev,
                    d,
                    sd,
                    ray,
                    est@,
                    out@,
                ));
                assert(pixel_sum_rel(*self, world.objects@, x, y, (s + 1) as nat, out@));
            }
            s = s + 1;
        }
        let avg = out.div(Fx::from_int(self.samples_per_pixel as i64));
        let rgb = to_rgb(avg, self.gamma);
        proof {
            assert(pixel_bytes_ok(
                *self,
                world.objects@,
                x,
                y,
                rgb.0 as int,
                rgb.1 as int,
                rgb.2 as int,
            )) by {
                reveal(pixel_bytes_ok);
                assert(pixel_sum_rel(
                    *self,
                    world.objects@,
                    x,
                    y,
                    self.samples_per_pixel as nat,
                    out@,
                ) && (rgb.0 as int, rgb.1 as int, rgb.2 as int) == rgb_of(
                    v_div(out@, clip((self.samples_per_pixel as int) * (SCALE as int))),
                    self.gamma@,
                ));
            }
        }
        rgb
    }

    /// The whole image, row by row from the top: a flat buffer of
    /// `3 * width * height` bytes, three channels per pixel.
    pub fn render(&self, world: &HittableList, rng: &mut SeededRng) -> (r: Vec<u8>)
        requires
            1 <= self.width <= 16384,
            1 <= self.height <= 16384,
            1 <= self.samples_per_pixel,
        ensures
            r@.len() == 3 * self.width * self.height,
            forall|x: u32, y: u32|
                x < self.width && y < self.height ==> #[trigger] rendered_pixel(
                    *self,
                    world.objects@,
                    r@,
                    x,
                    y,
                ),
    {
        let mut img: Vec<u8> = Vec::new();
        let mut y: u32 = 0;
        while y < self.height
            invariant
                y <= self.height,
                1 <= self.width <= 16384,
                1 <= self.height <= 16384,
                1 <= self.samples_per_pixel,
                img@.len() == 3 * (y as int) * (self.width as int),
                forall|x2: u32, y2: u32|
                    x2 < self.width && y2 < y ==> #[trigger] rendered_pixel(
                        *self,
                        world.objects@,
                        img@,
                        x2,
                        y2,
                    ),
            decreases self.height - y,
        {
            let mut x: u32 = 0;
            while x < self.width
                invariant
                    x <= self.width,
                    y < self.height,
                    1 <= self.width <= 16384,
                    1 <= self.height <= 16384,
                    1 <= self.samples_per_pixel,
                    img@.len() == 3 * (y as int) * (self.width as int) + 3 * (x as int),
                    forall|x2: u32, y2: u32|
                        (x2 < self.width && y2 < y) || (y2 == y && x2 < x)
                            ==> #[trigger] rendered_pixel(*self, world.objects@, img@, x2, y2),
                decreases self.width - x,
            {
                let px = self.render_pixel(world, x, y, rng);
                let ghost img_old = img@;
                img.push(px.0);
                img.push(px.1);
                img.push(px.2);
                proof {
                    let base = 3 * ((y as int) * (self.width as int) + (x as int));
                    assert(3 * ((y as int) * (self.width as int) + (x as int)) == 3 * (
                    y as int) * (self.width as int) + 3 * (x as int)) by (nonlinear_arith);
                    assert(img@ == img_old.push(px.0).push(px.1).push(px.2));
                    assert(img_old.len() == base);
                    assert(img@[base] == px.0 && img@[base + 1] == px.1 && img@[base + 2]
                        == px.2);
                    assert(rendered_pixel(*self, world.objects@, img@, x, y));
                    assert forall|x2: u32, y2: u32|
                        (x2 < self.width && y2 < y) || (y2 == y && x2 < x + 1) implies #[trigger] rendered_pixel(
                        *self,
                        world.objects@,
                        img@,
                        x2,
                        y2,
                    ) by {
                        if !(x2 == x && y2 == y) {
                            lemma_row_major_order(
                                self.width as int,
                                x as int,
                                y as int,
                                x2 as int,
                                y2 as int,
                            );
                            let base2 = 3 * ((y2 as int) * (self.width as int) + (x2 as int));
                            assert(img@[base2] == img_old[base2]);
                            assert(img@[base2 + 1] == img_old[base2 + 1]);
                            assert(img@[base2 + 2] == img_old[base2 + 2]);
                            assert(rendered_pixel(*self, world.objects@, img_old, x2, y2));
                        }
                    }
                }
                x = x + 1;
            }
            proof {
                assert(3 * ((y as int) + 1) * (self.width as int) == 3 * (y as int) * (
                self.width as int) + 3 * (self.width as int)) by (nonlinear_arith);
            }
            y = y + 1;
        }
        proof {
            assert(3 * (self.height as int) * (self.width as int) == 3 * (self.width as int) * (
            self.height as int)) by (nonlinear_arith);
        }
        img
    }
}

/// The default configuration is valid: the axis-aligned forward and up
/// pair builds an exact unit basis.
pub proof fn lemma_default_params_valid()
    ensures
        params_valid(default_params()),
{
    crate::fixed::lemma_fx_one_facts();
    let p = default_params();
    let s = SCALE as int;
    assert(p.forward@ == (0int, 0int, s));
    assert(v_len_sq(p.forward@) == s);
    assert(v_len(p.forward@) == s);
    let w = cam_basis_w(p);
    assert(w == (0int, 0int, s));
    let c = v_cross(w, p.up@);
    assert(c == (-s, 0int, 0int));
    assert(v_len_sq(c) == s);
    assert(v_len(c) == s);
}

impl Default for Camera {
    /// The camera of the default configuration.
    fn default() -> (r: Camera)
        ensures
            r == camera_from_params(default_params()),
    {
        proof {
            lemma_default_params_valid();
        }
        Camera::from(&CameraParams::default())
    }
}

} // verus!
