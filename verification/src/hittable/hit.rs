//! The record of a successful ray-primitive intersection.

use crate::fixed::Fx;
use crate::material::MaterialKind;
use crate::vec::Vec3;
use vstd::prelude::*;

verus! {

/// What a successful intersection reports: the struck point, the surface
/// normal flipped to face the incoming ray, the parametric distance of the
/// strike, whether the unflipped outward normal already faced the ray, the
/// struck material, and a shading parameter. For most primitives `shade`
/// repeats the distance; the fractal surface stores its normalized
/// iteration count there instead, keeping `distance` a true ray parameter.
#[derive(Clone, Copy, PartialEq, Eq, Structural, Debug)]
pub struct Hit {
    pub point: Vec3,
    pub normal: Vec3,
    pub distance: Fx,
    pub shade: Fx,
    pub front_face: bool,
    pub material: MaterialKind,
}

impl Hit {
    /// A hit record with the given fields; the shading parameter defaults
    /// to the distance.
    pub fn new(point: Vec3, normal: Vec3, distance: Fx, front_face: bool, material: MaterialKind)
        -> (r: Hit)
        ensures
            r == (Hit { point, normal, distance, shade: distance, front_face, material }),
    {
        Hit { point, normal, distance, shade: distance, front_face, material }
    }
}

} // verus!
