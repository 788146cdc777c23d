//! Rays: an origin and a unit-length direction.

use crate::fixed::Fx;
use crate::vec::{v_add, v_norm, v_scale, Vec3, V3};
use vstd::prelude::*;

verus! {

/// Where a ray starting at `origin` toward `direction` stands after
/// parameter `t`.
pub open spec fn ray_at(origin: V3, direction: V3, t: int) -> V3 {
    v_add(origin, v_scale(direction, t))
}

/// A directed half-line. The direction is normalized at construction, so
/// the parameter of [`Ray::at`] measures distance along the ray.
#[derive(Clone, Copy, PartialEq, Eq, Structural, Debug)]
pub struct Ray {
    pub origin: Vec3,
    pub direction: Vec3,
}

impl Ray {
    /// A ray from `origin` toward `direction`; the stored direction is the
    /// normalization of the argument.
    pub fn new(origin: Vec3, direction: Vec3) -> (r: Ray)
        ensures
            r.origin == origin,
            r.direction@ == v_norm(direction@),
    {
        Ray { origin, direction: direction.normalize() }
    }

    /// The point `origin + direction * distance`.
    pub fn at(&self, distance: Fx) -> (r: Vec3)
        ensures
            r@ == ray_at(self.origin@, self.direction@, distance@),
    {
        self.origin.add(self.direction.scale(distance))
    }
}

} // verus!
