//! The material capability: scattering an incoming ray at a hit.

use crate::hittable::Hit;
use crate::random::SeededRng;
use crate::ray::Ray;
use crate::vec::{Vec3, V3};
use vstd::prelude::*;

verus! {

/// The common shape of a scatter result that continues the path: the
/// attenuation equals `att`, and the continuation ray starts at `origin`
/// with (normalized) direction `dir`.
pub open spec fn scatter_parts(
    r: Option<(Vec3, Option<Ray>)>,
    att: V3,
    origin: V3,
    dir: V3,
) -> bool {
    match r {
        Some(pair) => pair.0@ == att && match pair.1 {
            Some(nr) => nr.origin@ == origin && nr.direction@ == dir,
            None => false,
        },
        None => false,
    }
}

/// A surface response to light. `scatter` turns an incoming ray and a hit
/// into an attenuation color and an optional continuation ray; `None`
/// means full absorption, and a missing continuation means the attenuation
/// itself is emitted. Each implementer pins the result down with its own
/// `scatter_ok` relation, exact up to the random draws it consumed.
pub trait Material {
    /// How a scatter result may relate to the inputs.
    spec fn scatter_ok(&self, ray: Ray, hit: Hit, r: Option<(Vec3, Option<Ray>)>) -> bool;

    /// Scatter the incoming `ray` at `hit`, drawing any needed randomness
    /// from `rng`.
    fn scatter(&self, ray: &Ray, hit: &Hit, rng: &mut SeededRng) -> (r: Option<
        (Vec3, Option<Ray>),
    >)
        ensures
            self.scatter_ok(*ray, *hit, r),
    ;
}

} // verus!
