//! A pattern material: a pure emitter colored by the hit position.

use crate::hittable::Hit;
use crate::material::traits::Material;
use crate::random::SeededRng;
use crate::ray::Ray;
use crate::trans::sin_fx;
use crate::vec::{v_norm, Vec3, V3};
use vstd::prelude::*;

verus! {

/// The emitted color: the componentwise sine of the hit position,
/// normalized.
#[verifier::opaque]
pub open spec fn rainbow_color(point: V3) -> V3 {
    v_norm((sin_fx(point.0), sin_fx(point.1), sin_fx(point.2)))
}

/// A position-patterned emitter: it never continues the path, it only
/// returns a color derived from where the ray struck.
#[derive(Clone, Copy, PartialEq, Eq, Structural, Debug, Default)]
pub struct Rainbow {}

impl Rainbow {
    /// The rainbow emitter.
    pub fn new() -> (r: Rainbow)
        ensures
            r == (Rainbow {  }),
    {
        Rainbow {  }
    }
}

impl Material for Rainbow {
    /// Deterministic: the attenuation is `rainbow_color` of the struck
    /// point and there is no continuation ray.
    open spec fn scatter_ok(&self, ray: Ray, hit: Hit, r: Option<(Vec3, Option<Ray>)>) -> bool {
        match r {
            Some(pair) => pair.0@ == rainbow_color(hit.point@) && pair.1 is None,
            None => false,
        }
    }

    fn scatter(&self, _ray: &Ray, hit: &Hit, _rng: &mut SeededRng) -> (r: Option<
        (Vec3, Option<Ray>),
    >) {
        proof {
            reveal(rainbow_color);
        }
        let colored = Vec3::new(hit.point.x.sin(), hit.point.y.sin(), hit.point.z.sin());
        Some((colored.normalize(), None))
    }
}

} // verus!
