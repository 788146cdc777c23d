//! The diffuse material.

use crate::hittable::Hit;
use crate::material::traits::{scatter_parts, Material};
use crate::random::{in_unit_box, random_unit_vector, unit_sphere_sample, SeededRng};
use crate::ray::Ray;
use crate::vec::{approx_zero, v_add, v_len, v_norm, Vec3, V3, APPROX_ERROR_RAW};
use vstd::prelude::*;

verus! {

/// The scatter direction before normalization: the surface normal plus a
/// drawn unit-box direction, falling back to the bare normal when the sum
/// is too short to normalize safely.
pub open spec fn lambertian_dir(hit: Hit, u: V3) -> V3 {
    let d = v_add(hit.normal@, u);
    if v_len(d) < APPROX_ERROR_RAW as int {
        hit.normal@
    } else {
        d
    }
}

/// A diffuse scatter result for the draw `u`: the perturbation is a
/// unit-sphere sample, the attenuation is the albedo, and the
/// continuation leaves the hit point along `lambertian_dir`.
#[verifier::opaque]
pub open spec fn lambertian_pick(
    m: Lambertian,
    hit: Hit,
    u: V3,
    r: Option<(Vec3, Option<Ray>)>,
) -> bool {
    &&& in_unit_box(u)
    &&& unit_sphere_sample(u)
    &&& scatter_parts(r, m.albedo@, hit.point@, v_norm(lambertian_dir(hit, u)))
}

/// A diffuse surface: light leaves in a randomized direction around the
/// normal, attenuated by the surface color.
#[derive(Clone, Copy, PartialEq, Eq, Structural, Debug)]
pub struct Lambertian {
    pub albedo: Vec3,
}

impl Lambertian {
    /// A diffuse surface with the given base color.
    pub fn new(albedo: Vec3) -> (r: Lambertian)
        ensures
            r == (Lambertian { albedo }),
    {
        Lambertian { albedo }
    }
}

impl Material for Lambertian {
    /// Some drawn unit-sphere direction explains the result; the incoming
    /// ray plays no part in a diffuse scatter.
    open spec fn scatter_ok(&self, ray: Ray, hit: Hit, r: Option<(Vec3, Option<Ray>)>) -> bool {
        exists|u: V3| #[trigger] lambertian_pick(*self, hit, u, r)
    }

    fn scatter(&self, _ray: &Ray, hit: &Hit, rng: &mut SeededRng) -> (r: Option<
        (Vec3, Option<Ray>),
    >) {
        let u = random_unit_vector(rng);
        let mut direction = hit.normal.add(u);
        if approx_zero(direction) {
            direction = hit.normal;
        }
        let out = Some((self.albedo, Some(Ray::new(hit.point, direction))));
        proof {
            reveal(lambertian_pick);
            assert(lambertian_pick(*self, *hit, u@, out));
        }
        out
    }
}

} // verus!
