//! The reflective material.

use crate::fixed::{Fx, SCALE};
use crate::hittable::Hit;
use crate::material::traits::{scatter_parts, Material};
use crate::random::{in_unit_box, random_unit_vector, unit_sphere_sample, SeededRng};
use crate::ray::Ray;
use crate::vec::{
    approx_zero, v_add, v_len, v_norm, v_reflect, v_scale, Vec3, V3, APPROX_ERROR_RAW,
};
use vstd::prelude::*;

verus! {

/// The roughness stored by a metal: the requested value clamped into
/// `[0, 1]`.
pub open spec fn metal_fuzz(fuzz: int) -> int {
    if fuzz < 0 {
        0
    } else if fuzz > SCALE as int {
        SCALE as int
    } else {
        fuzz
    }
}

/// The scatter direction before normalization: the mirror reflection,
/// perturbed by the drawn direction scaled by the roughness, falling back
/// to the pure reflection when the sum is too short to normalize safely.
pub open spec fn metal_dir(m: Metal, ray: Ray, hit: Hit, u: V3) -> V3 {
    let reflected = v_reflect(ray.direction@, hit.normal@);
    let d = v_add(reflected, v_scale(u, m.fuzz@));
    if v_len(d) < APPROX_ERROR_RAW as int {
        reflected
    } else {
        d
    }
}

/// A metallic scatter result for the draw `u`: the perturbation is a
/// unit-sphere sample, the attenuation is the albedo, and the
/// continuation leaves the hit point along `metal_dir`.
#[verifier::opaque]
pub open spec fn metal_pick(m: Metal, ray: Ray, hit: Hit, u: V3, r: Option<
    (Vec3, Option<Ray>),
>) -> bool {
    &&& in_unit_box(u)
    &&& unit_sphere_sample(u)
    &&& scatter_parts(r, m.albedo@, hit.point@, v_norm(metal_dir(m, ray, hit, u)))
}

/// A reflective surface with a fuzz factor in `[0, 1]` that roughens the
/// mirror direction.
#[derive(Clone, Copy, PartialEq, Eq, Structural, Debug)]
pub struct Metal {
    pub albedo: Vec3,
    pub fuzz: Fx,
}

impl Metal {
    /// A metal with the given base color; the roughness is clamped into
    /// `[0, 1]` here, once, so no scatter ever sees a value outside it.
    pub fn new(albedo: Vec3, fuzz: Fx) -> (r: Metal)
        ensures
            r.albedo == albedo,
            r.fuzz@ == metal_fuzz(fuzz@),
    {
        Metal { albedo, fuzz: fuzz.clamp(Fx { raw: 0 }, Fx { raw: SCALE }) }
    }
}

/// A metal built with any roughness above one carries exactly the fields
/// of one built with roughness one, so the two values behave identically
/// everywhere.
pub proof fn lemma_metal_fuzz_clamp(m_big: Metal, m_one: Metal, big: int)
    requires
        big >= SCALE as int,
        m_big.fuzz@ == metal_fuzz(big),
        m_one.fuzz@ == metal_fuzz(SCALE as int),
        m_big.albedo == m_one.albedo,
    ensures
        m_big == m_one,
{
}

impl Material for Metal {
    /// Some drawn unit-sphere direction explains the result.
    open spec fn scatter_ok(&self, ray: Ray, hit: Hit, r: Option<(Vec3, Option<Ray>)>) -> bool {
        exists|u: V3| #[trigger] metal_pick(*self, ray, hit, u, r)
    }

    fn scatter(&self, ray: &Ray, hit: &Hit, rng: &mut SeededRng) -> (r: Option<
        (Vec3, Option<Ray>),
    >) {
        let u = random_unit_vector(rng);
        let reflected = ray.direction.reflect(hit.normal);
        let mut direction = reflected.add(u.scale(self.fuzz));
        if approx_zero(direction) {
            direction = reflected;
        }
        let out = Some((self.albedo, Some(Ray::new(hit.point, direction))));
        proof {
            reveal(metal_pick);
            assert(metal_pick(*self, *ray, *hit, u@, out));
        }
        out
    }
}

} // verus!
