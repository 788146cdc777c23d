//! Scene geometry: hit records, primitives, and the scene aggregate.

pub mod hit;
pub mod hittablelist;
pub mod mandelbulb;
pub mod sphere;
pub mod traits;

pub use hit::Hit;
pub use hittablelist::HittableList;
pub use mandelbulb::Mandelbulb;
pub use sphere::Sphere;
pub use traits::Hittable;
pub use traits::Primitive;
