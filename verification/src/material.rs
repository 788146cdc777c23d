//! Materials: how surfaces respond to light.

pub mod custom;
pub mod dielectric;
pub mod lambertian;
pub mod metal;
pub mod rainbow;
pub mod traits;

pub use custom::Custom;
pub use dielectric::Dielectric;
pub use lambertian::Lambertian;
pub use metal::Metal;
pub use rainbow::Rainbow;
pub use traits::Material;

use crate::hittable::Hit;
use crate::random::SeededRng;
use crate::ray::Ray;
use crate::vec::Vec3;
use vstd::prelude::*;

verus! {

/// The closed set of materials a primitive can carry. Hits store one of
/// these by value; scattering dispatches to the variant's own rule.
#[derive(Clone, Copy, PartialEq, Eq, Structural, Debug)]
pub enum MaterialKind {
    Lambertian(Lambertian),
    Metal(Metal),
    Dielectric(Dielectric),
    Rainbow(Rainbow),
    Custom(Custom),
}

impl Material for MaterialKind {
    /// The scatter relation of whichever material this is.
    open spec fn scatter_ok(&self, ray: Ray, hit: Hit, r: Option<(Vec3, Option<Ray>)>) -> bool {
        match self {
            MaterialKind::Lambertian(m) => m.scatter_ok(ray, hit, r),
            MaterialKind::Metal(m) => m.scatter_ok(ray, hit, r),
            MaterialKind::Dielectric(m) => m.scatter_ok(ray, hit, r),
            MaterialKind::Rainbow(m) => m.scatter_ok(ray, hit, r),
            MaterialKind::Custom(m) => m.scatter_ok(ray, hit, r),
        }
    }

    fn scatter(&self, ray: &Ray, hit: &Hit, rng: &mut SeededRng) -> (r: Option<
        (Vec3, Option<Ray>),
    >) {
        match self {
            MaterialKind::Lambertian(m) => m.scatter(ray, hit, rng),
            MaterialKind::Metal(m) => m.scatter(ray, hit, rng),
            MaterialKind::Dielectric(m) => m.scatter(ray, hit, rng),
            MaterialKind::Rainbow(m) => m.scatter(ray, hit, rng),
            MaterialKind::Custom(m) => m.scatter(ray, hit, rng),
        }
    }
}

} // verus!
