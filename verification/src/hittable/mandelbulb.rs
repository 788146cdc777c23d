//! A fractal surface, intersected by sphere tracing.
//!
//! The surface is located by marching the ray forward by an estimated
//! signed distance, recomputed each step by a bounded escape-time
//! iteration (32 inner steps, bailout radius 10): track a running point
//! `z`, a derivative scalar `dr` and a radius `r`, and estimate the
//! distance as `0.5 ln(r) r / dr`. The outer march runs at most 128 steps
//! and declares a hit once the estimate falls to a small epsilon while
//! the accumulated distance lies strictly inside `(min, max)`. The normal
//! is approximated by the ray direction itself — a deliberate
//! simplification — and the hit's shading parameter carries the
//! normalized march step count rather than repeating the distance.

use crate::fixed::{fx_add, fx_div, fx_mul, fx_of, fx_sub, Fx, HALF_RAW, SCALE};
use crate::hittable::hit::Hit;
use crate::hittable::traits::Hittable;
use crate::material::rainbow::Rainbow;
use crate::material::MaterialKind;
use crate::ray::{ray_at, Ray};
use crate::trans::{acos_fx, atan_fx, cos_fx, ln_fx, pow_fx, sin_fx};
use crate::vec::{v_add, v_len, v_scale, vec3_of, Vec3, V3};
use vstd::prelude::*;

verus! {

/// Raw bailout radius of the escape iteration (10.0).
pub const BAILOUT_RAW: i64 = 42949672960;

/// Raw march epsilon (about 2e-4): estimates at or below it count as
/// touching the surface.
pub const MARCH_EPS_RAW: i64 = 858993;

/// Raw shade unit: one march step out of 128, as a fixed-point fraction.
pub const SHADE_STEP_RAW: i64 = 33554432;

/// The escape-time state after up to `n` more steps from `(z, dr, r)`:
/// each step measures `r = |z|`, stops beyond the bailout radius, and
/// otherwise rebuilds `z` in scaled spherical coordinates raised to
/// `power` and offsets it by `c`.
pub open spec fn de_state(power: int, c: V3, z: V3, dr: int, r: int, n: nat) -> (V3, int, int)
    decreases n,
{
    if n == 0 {
        (z, dr, r)
    } else {
        let r1 = v_len(z);
        if r1 > BAILOUT_RAW as int {
            (z, dr, r1)
        } else {
            let theta = fx_mul(acos_fx(fx_div(z.2, r1)), power);
            let phi = fx_mul(atan_fx(fx_div(z.1, z.0)), power);
            let dr2 = fx_add(
                fx_mul(fx_mul(pow_fx(r1, fx_sub(power, SCALE as int)), power), dr),
                SCALE as int,
            );
            let zr = pow_fx(r1, power);
            let z2 = v_add(
                v_scale(
                    (
                        fx_mul(sin_fx(theta), cos_fx(phi)),
                        fx_mul(sin_fx(theta), sin_fx(phi)),
                        cos_fx(theta),
                    ),
                    zr,
                ),
                c,
            );
            de_state(power, c, z2, dr2, r1, (n - 1) as nat)
        }
    }
}

/// The distance estimate at `c`: run the escape iteration from `z = c`
/// and return `0.5 ln(r) r / dr`. Opaque so the march reasons about the
/// estimate as a value.
#[verifier::opaque]
pub open spec fn de_fx(power: int, c: V3) -> int {
    let st = de_state(power, c, c, SCALE as int, 0, 32);
    fx_div(fx_mul(fx_mul(HALF_RAW as int, ln_fx(st.2)), st.2), st.1)
}

/// Once the radius has escaped, further steps change nothing.
proof fn lemma_de_fixpoint(power: int, c: V3, z: V3, dr: int, r: int, n: nat)
    requires
        v_len(z) == r,
        r > BAILOUT_RAW as int,
    ensures
        de_state(power, c, z, dr, r, n) == (z, dr, r),
{
}

/// The march from parameter `d` at step `i`: advance by the local
/// estimate, and report the advanced parameter and the step index once
/// the estimate is small and the parameter lies strictly inside
/// `(min, max)`; give up after 128 steps.
pub open spec fn march(power: int, ray: Ray, min: int, max: int, d: int, i: nat) -> Option<
    (int, nat),
>
    decreases 128 - i,
{
    if i >= 128 {
        None
    } else {
        let delta = de_fx(power, ray_at(ray.origin@, ray.direction@, d));
        let d2 = fx_add(d, delta);
        if delta <= MARCH_EPS_RAW as int && min < d2 < max {
            Some((d2, i))
        } else {
            march(power, ray, min, max, d2, i + 1)
        }
    }
}

/// The exact intersection result of the fractal surface: the marched
/// distance, the ray direction standing in for a normal, and the
/// normalized step count as the shading parameter.
#[verifier::opaque]
pub open spec fn mandelbulb_hit_spec(m: Mandelbulb, ray: Ray, min: int, max: int) -> Option<
    Hit,
> {
    match march(m.power@, ray, min, max, min, 0) {
        None => None,
        Some(pr) => Some(
            Hit {
                point: vec3_of(ray_at(ray.origin@, ray.direction@, pr.0)),
                normal: ray.direction,
                distance: fx_of(pr.0),
                shade: fx_of(pr.1 * (SHADE_STEP_RAW as int)),
                front_face: false,
                material: m.material,
            },
        ),
    }
}

/// A fractal surface of the given power, colored by the rainbow emitter.
#[derive(Clone, Copy, PartialEq, Eq, Structural, Debug)]
pub struct Mandelbulb {
    pub material: MaterialKind,
    pub power: Fx,
}

impl Mandelbulb {
    /// A fractal surface of the given power.
    pub fn new(power: Fx) -> (r: Mandelbulb)
        ensures
            r == (Mandelbulb { material: MaterialKind::Rainbow(Rainbow {  }), power }),
    {
        Mandelbulb { material: MaterialKind::Rainbow(Rainbow::new()), power }
    }

    /// The signed distance estimate from `c` to the surface.
    fn distance_equation(&self, c: Vec3) -> (out: Fx)
        ensures
            out@ == de_fx(self.power@, c@),
    {
        proof {
            reveal(de_fx);
        }
        let p = self.power;
        let mut z = c;
        let mut dr = Fx::one();
        let mut rr = Fx { raw: 0 };
        let mut done = false;
        let mut i: u32 = 0;
        while i < 32
            invariant
                i <= 32,
                p == self.power,
                de_state(p@, c@, z@, dr@, rr@, (32 - i) as nat) == de_state(
                    p@,
                    c@,
                    c@,
                    SCALE as int,
                    0,
                    32,
                ),
                done ==> v_len(z@) == rr@ && rr@ > BAILOUT_RAW as int,
            decreases 32 - i,
        {
            if !done {
                rr = z.length();
                if (Fx { raw: BAILOUT_RAW }).lt(rr) {
                    done = true;
                } else {
                    let theta0 = z.z.div(rr).acos();
                    let phi0 = z.y.div(z.x).atan();
                    dr = rr.powf(p.sub(Fx::one())).mul(p).mul(dr).add(Fx::one());
                    let zr = rr.powf(p);
                    let theta = theta0.mul(p);
                    let phi = phi0.mul(p);
                    z = Vec3::new(
                        theta.sin().mul(phi.cos()),
                        theta.sin().mul(phi.sin()),
                        theta.cos(),
                    ).scale(zr).add(c);
                }
            }
            proof {
                if done {
                    lemma_de_fixpoint(p@, c@, z@, dr@, rr@, (32 - i) as nat);
                    lemma_de_fixpoint(p@, c@, z@, dr@, rr@, (31 - i) as nat);
                }
            }
            i = i + 1;
        }
        Fx { raw: HALF_RAW }.mul(rr.ln()).mul(rr).div(dr)
    }
}

impl Hittable for Mandelbulb {
    open spec fn hit_spec(&self, ray: Ray, min: int, max: int) -> Option<Hit> {
        mandelbulb_hit_spec(*self, ray, min, max)
    }

    fn hit(&self, ray: &Ray, min: Fx, max: Fx) -> (r: Option<Hit>) {
        proof {
            reveal(mandelbulb_hit_spec);
        }
        let mut distance = min;
        let mut n: u32 = 0;
        while n < 128
            invariant
                n <= 128,
                march(self.power@, *ray, min@, max@, min@, 0) == march(
                    self.power@,
                    *ray,
                    min@,
                    max@,
                    distance@,
                    n as nat,
                ),
            decreases 128 - n,
        {
            proof {
                reveal(mandelbulb_hit_spec);
            }
            let delta = self.distance_equation(ray.at(distance));
            distance = distance.add(delta);
            if delta.le(Fx { raw: MARCH_EPS_RAW }) && min.lt(distance) && distance.lt(max) {
                return Some(
                    Hit {
                        point: ray.at(distance),
                        normal: ray.direction,
                        distance,
                        shade: Fx { raw: (n as i64) * SHADE_STEP_RAW },
                        front_face: false,
                        material: self.material,
                    },
                );
            }
            n = n + 1;
        }
        None
    }
}

} // verus!
