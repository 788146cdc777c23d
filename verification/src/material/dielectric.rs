//! The refractive material.

use crate::fixed::{fx_add, fx_div, fx_mul, fx_neg, fx_sqrt, fx_sub, Fx, SCALE};
use crate::hittable::Hit;
use crate::material::traits::{scatter_parts, Material};
use crate::random::SeededRng;
use crate::ray::Ray;
use crate::vec::{v_dot, v_norm, v_reflect, v_refract, Vec3, V3};
use vstd::prelude::*;

verus! {

/// Schlick's reflectance approximation:
/// `r0 + (1 - r0) (1 - cos)^5` with `r0 = ((1 - eta) / (1 + eta))^2`.
pub open spec fn reflectance_fx(cos_theta: int, eta: int) -> int {
    let tmp = fx_div(fx_sub(SCALE as int, eta), fx_add(SCALE as int, eta));
    let r0 = fx_mul(tmp, tmp);
    let b = fx_sub(SCALE as int, cos_theta);
    let b2 = fx_mul(b, b);
    let b4 = fx_mul(b2, b2);
    fx_add(r0, fx_mul(fx_sub(SCALE as int, r0), fx_mul(b4, b)))
}

/// The refraction ratio a dielectric uses: the reciprocal of its index
/// when the ray enters the medium, the index itself when it leaves.
pub open spec fn dielectric_eta(m: Dielectric, hit: Hit) -> int {
    if hit.front_face {
        fx_div(SCALE as int, m.refractive_index@)
    } else {
        m.refractive_index@
    }
}

/// The outgoing direction before normalization, given the uniform draw
/// `q`: reflect on total internal reflection or when the Schlick
/// reflectance exceeds `q`, refract otherwise.
pub open spec fn dielectric_dir(m: Dielectric, ray: Ray, hit: Hit, q: int) -> V3 {
    let eta = dielectric_eta(m, hit);
    let c0 = fx_neg(v_dot(ray.direction@, hit.normal@));
    let cos_theta = if c0 <= SCALE as int {
        c0
    } else {
        SCALE as int
    };
    let sin_theta = fx_sqrt(fx_sub(SCALE as int, fx_mul(cos_theta, cos_theta)));
    if fx_mul(eta, sin_theta) > SCALE as int || reflectance_fx(cos_theta, eta) > q {
        v_reflect(ray.direction@, hit.normal@)
    } else {
        v_refract(ray.direction@, hit.normal@, eta)
    }
}

/// A refractive scatter result for the draw `q`: attenuation is the
/// identity color, and the continuation leaves the hit point along
/// `dielectric_dir`.
#[verifier::opaque]
pub open spec fn dielectric_pick(m: Dielectric, ray: Ray, hit: Hit, q: int, r: Option<
    (Vec3, Option<Ray>),
>) -> bool {
    &&& 0 <= q < SCALE as int
    &&& scatter_parts(
        r,
        (SCALE as int, SCALE as int, SCALE as int),
        hit.point@,
        v_norm(dielectric_dir(m, ray, hit, q)),
    )
}

/// A clear refractive surface (the surrounding medium is assumed to have
/// index one). It absorbs nothing: every scatter carries the identity
/// attenuation.
#[derive(Clone, Copy, PartialEq, Eq, Structural, Debug)]
pub struct Dielectric {
    pub refractive_index: Fx,
}

impl Dielectric {
    /// A dielectric with the given index of refraction.
    pub fn new(refractive_index: Fx) -> (r: Dielectric)
        ensures
            r == (Dielectric { refractive_index }),
    {
        Dielectric { refractive_index }
    }
}

/// Energy conservation: whatever a dielectric's scatter returns, it is a
/// continuation with the identity attenuation `(1, 1, 1)` — never an
/// absorption, whatever the angle, side, and reflectance draw.
pub proof fn lemma_dielectric_energy_conservation(
    m: Dielectric,
    ray: Ray,
    hit: Hit,
    r: Option<(Vec3, Option<Ray>)>,
)
    requires
        m.scatter_ok(ray, hit, r),
    ensures
        match r {
            Some(p) => p.0@ == (SCALE as int, SCALE as int, SCALE as int) && p.1 is Some,
            None => false,
        },
{
    reveal(dielectric_pick);
    let q = choose|q: int| #[trigger] dielectric_pick(m, ray, hit, q, r);
    assert(dielectric_pick(m, ray, hit, q, r));
}

impl Material for Dielectric {
    /// Some uniform draw in `[0, 1)` explains the result.
    open spec fn scatter_ok(&self, ray: Ray, hit: Hit, r: Option<(Vec3, Option<Ray>)>) -> bool {
        exists|q: int| #[trigger] dielectric_pick(*self, ray, hit, q, r)
    }

    fn scatter(&self, ray: &Ray, hit: &Hit, rng: &mut SeededRng) -> (r: Option<
        (Vec3, Option<Ray>),
    >) {
        let q = rng.next_unit();
        let eta = if hit.front_face {
            Fx::one().div(self.refractive_index)
        } else {
            self.refractive_index
        };
        let cos_theta = ray.direction.dot(hit.normal).neg().min(Fx::one());
        let sin_theta = Fx::one().sub(cos_theta.mul(cos_theta)).sqrt();
        let direction = if Fx::one().lt(eta.mul(sin_theta)) || q.lt(reflectance(cos_theta, eta)) {
            ray.direction.reflect(hit.normal)
        } else {
            ray.direction.refract(hit.normal, eta)
        };
        let out = Some((Vec3::one(), Some(Ray::new(hit.point, direction))));
        proof {
            reveal(dielectric_pick);
            assert(dielectric_pick(*self, *ray, *hit, q@, out));
        }
        out
    }
}

/// Schlick's approximation of the Fresnel reflectance.
fn reflectance(cos_theta: Fx, eta: Fx) -> (r: Fx)
    ensures
        r@ == reflectance_fx(cos_theta@, eta@),
{
    let tmp = Fx::one().sub(eta).div(Fx::one().add(eta));
    let r_0 = tmp.mul(tmp);
    let b = Fx::one().sub(cos_theta);
    let b2 = b.mul(b);
    let b4 = b2.mul(b2);
    r_0.add(Fx::one().sub(r_0).mul(b4.mul(b)))
}

} // verus!
