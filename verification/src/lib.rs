//! A small path-tracing renderer verified with Verus.
//!
//! All geometry and radiance arithmetic is carried out in saturating
//! fixed-point numbers ([`fixed::Fx`]), so every numeric step has an exact
//! integer specification. The scene model follows the classic layering:
//! rays, hit records, primitives (spheres and a fractal surface), a scene
//! aggregate, materials, and a camera that drives the recursive radiance
//! estimate. Randomness enters only through the [`random`] module, which
//! draws from a seeded generator behind a small trusted boundary.

pub mod camera;
pub mod fixed;
pub mod hittable;
pub mod material;
pub mod random;
pub mod ray;
pub mod testing;
pub mod trans;
pub mod vec;

