//! The intersection capability, and the closed set of primitives.

use crate::fixed::Fx;
use crate::hittable::hit::Hit;
use crate::hittable::mandelbulb::{mandelbulb_hit_spec, Mandelbulb};
use crate::hittable::sphere::{sphere_hit_spec, Sphere};
use crate::ray::Ray;
use vstd::prelude::*;

verus! {

/// Geometry a ray can strike. `hit` reports the nearest intersection
/// whose parametric distance lies strictly inside `(min, max)`, or
/// nothing; each implementer pins the result down exactly with its own
/// `hit_spec`.
pub trait Hittable {
    /// The exact intersection result.
    spec fn hit_spec(&self, ray: Ray, min: int, max: int) -> Option<Hit>;

    /// Test `ray` against this geometry within the open interval
    /// `(min, max)`.
    fn hit(&self, ray: &Ray, min: Fx, max: Fx) -> (r: Option<Hit>)
        ensures
            r == self.hit_spec(*ray, min@, max@),
    ;
}

/// The closed set of primitives a scene can hold.
#[derive(Clone, Copy, PartialEq, Eq, Structural, Debug)]
pub enum Primitive {
    Sphere(Sphere),
    Mandelbulb(Mandelbulb),
}

/// The intersection result of a primitive, by variant.
pub open spec fn prim_hit(p: Primitive, ray: Ray, min: int, max: int) -> Option<Hit> {
    match p {
        Primitive::Sphere(s) => sphere_hit_spec(s, ray, min, max),
        Primitive::Mandelbulb(m) => mandelbulb_hit_spec(m, ray, min, max),
    }
}

impl Hittable for Primitive {
    open spec fn hit_spec(&self, ray: Ray, min: int, max: int) -> Option<Hit> {
        prim_hit(*self, ray, min, max)
    }

    fn hit(&self, ray: &Ray, min: Fx, max: Fx) -> (r: Option<Hit>) {
        match self {
            Primitive::Sphere(s) => s.hit(ray, min, max),
            Primitive::Mandelbulb(m) => m.hit(ray, min, max),
        }
    }
}

} // verus!
