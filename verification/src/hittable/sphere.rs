//! Spheres, intersected in closed form.
//!
//! The quadratic `|O + t D - C|^2 = r^2` is solved in the half-coefficient
//! form: with `h = D . (C - O)` and `a = |D|^2`, the roots are
//! `(h -/+ sqrt(h^2 - a c)) / a`. A negative discriminant means a miss;
//! otherwise the roots are tried in ascending order and the first one
//! strictly inside `(min, max)` is returned.

use crate::fixed::{
    fx_add, fx_div, fx_mul, fx_of, fx_sqrt, fx_sub, lemma_fx_div_monotone_num,
    lemma_fx_mul_square_nonneg, Fx,
};
use crate::hittable::hit::Hit;
use crate::hittable::traits::Hittable;
use crate::material::MaterialKind;
use crate::ray::{ray_at, Ray};
use crate::vec::{v_dot, v_len_sq, v_neg, v_norm, v_sub, vec3_of, Vec3};
use vstd::prelude::*;

verus! {

/// The quadratic's leading coefficient: the squared length of the ray
/// direction.
pub open spec fn sphere_a(ray: Ray) -> int {
    v_dot(ray.direction@, ray.direction@)
}

/// The half-coefficient `h = D . (C - O)`.
pub open spec fn sphere_h(s: Sphere, ray: Ray) -> int {
    v_dot(ray.direction@, v_sub(s.position@, ray.origin@))
}

/// The constant coefficient `|C - O|^2 - r^2`.
pub open spec fn sphere_c(s: Sphere, ray: Ray) -> int {
    fx_sub(v_len_sq(v_sub(s.position@, ray.origin@)), fx_mul(s.radius@, s.radius@))
}

/// The discriminant `h^2 - a c`.
pub open spec fn sphere_disc(s: Sphere, ray: Ray) -> int {
    fx_sub(fx_mul(sphere_h(s, ray), sphere_h(s, ray)), fx_mul(sphere_a(ray), sphere_c(s, ray)))
}

/// The smaller root `(h - sqrt(disc)) / a`.
pub open spec fn sphere_t1(s: Sphere, ray: Ray) -> int {
    fx_div(fx_sub(sphere_h(s, ray), fx_sqrt(sphere_disc(s, ray))), sphere_a(ray))
}

/// The larger root `(h + sqrt(disc)) / a`.
pub open spec fn sphere_t2(s: Sphere, ray: Ray) -> int {
    fx_div(fx_add(sphere_h(s, ray), fx_sqrt(sphere_disc(s, ray))), sphere_a(ray))
}

/// The returned parametric distance: the first root, in ascending order,
/// strictly inside `(min, max)`; none if the discriminant is negative or
/// neither root is inside.
pub open spec fn sphere_hit_t(s: Sphere, ray: Ray, min: int, max: int) -> Option<int> {
    if sphere_disc(s, ray) < 0 {
        None
    } else if min < sphere_t1(s, ray) < max {
        Some(sphere_t1(s, ray))
    } else if min < sphere_t2(s, ray) < max {
        Some(sphere_t2(s, ray))
    } else {
        None
    }
}

/// The hit record for a strike at parameter `t`: struck point on the ray,
/// outward normal flipped to face the incoming ray, `front_face` telling
/// whether the unflipped normal already faced it.
pub open spec fn sphere_make_hit(s: Sphere, ray: Ray, t: int) -> Hit {
    let p = ray_at(ray.origin@, ray.direction@, t);
    let outward = v_norm(v_sub(p, s.position@));
    let ff = v_dot(outward, ray.direction@) < 0;
    Hit {
        point: vec3_of(p),
        normal: vec3_of(
            if ff {
                outward
            } else {
                v_neg(outward)
            },
        ),
        distance: fx_of(t),
        shade: fx_of(t),
        front_face: ff,
        material: s.material,
    }
}

/// The exact intersection result of a sphere. Opaque so that callers of
/// the scene scan reason about it as a value; the lemmas below expose
/// what they need.
#[verifier::opaque]
pub open spec fn sphere_hit_spec(s: Sphere, ray: Ray, min: int, max: int) -> Option<Hit> {
    match sphere_hit_t(s, ray, min, max) {
        Some(t) => Some(sphere_make_hit(s, ray, t)),
        None => None,
    }
}

/// A sphere of positive radius with a material.
#[derive(Clone, Copy, PartialEq, Eq, Structural, Debug)]
pub struct Sphere {
    pub position: Vec3,
    pub radius: Fx,
    pub material: MaterialKind,
}

impl Sphere {
    /// A sphere centered at `position`. Degenerate radii are rejected
    /// here, at construction, not per ray.
    pub fn new(position: Vec3, radius: Fx, material: MaterialKind) -> (r: Sphere)
        requires
            radius@ > 0,
        ensures
            r == (Sphere { position, radius, material }),
    {
        Sphere { position, radius, material }
    }
}

/// The leading coefficient is a sum of squares, hence never negative.
pub proof fn lemma_sphere_a_nonneg(ray: Ray)
    ensures
        sphere_a(ray) >= 0,
{
    let d = ray.direction@;
    lemma_fx_mul_square_nonneg(d.0);
    lemma_fx_mul_square_nonneg(d.1);
    lemma_fx_mul_square_nonneg(d.2);
}

/// The roots come out in ascending order: `t1 <= t2`.
pub proof fn lemma_sphere_roots_ordered(s: Sphere, ray: Ray)
    ensures
        sphere_t1(s, ray) <= sphere_t2(s, ray),
{
    lemma_sphere_a_nonneg(ray);
    let h = sphere_h(s, ray);
    let sq = fx_sqrt(sphere_disc(s, ray));
    lemma_fx_div_monotone_num(fx_sub(h, sq), fx_add(h, sq), sphere_a(ray));
}

/// What a sphere returns is the smaller of the two roots whenever the
/// smaller root lies in range, and in every case a parameter strictly
/// inside `(min, max)` that is one of the two roots.
pub proof fn lemma_sphere_returns_smaller_root(s: Sphere, ray: Ray, min: int, max: int)
    ensures
        match sphere_hit_t(s, ray, min, max) {
            Some(t) => {
                &&& min < t < max
                &&& t == sphere_t1(s, ray) || t == sphere_t2(s, ray)
                &&& t <= sphere_t2(s, ray)
                &&& (min < sphere_t1(s, ray) < max ==> t == sphere_t1(s, ray))
            },
            None => true,
        },
{
    lemma_sphere_roots_ordered(s, ray);
}

/// Shrinking the far bound keeps exactly the strikes nearer than the new
/// bound: the scene scan relies on this to find the global nearest hit.
pub proof fn lemma_sphere_hit_shrink(s: Sphere, ray: Ray, min: int, max: int, max2: int)
    requires
        max2 <= max,
    ensures
        sphere_hit_t(s, ray, min, max2) == match sphere_hit_t(s, ray, min, max) {
            Some(t) => if t < max2 {
                Some(t)
            } else {
                None::<int>
            },
            None => None::<int>,
        },
{
    lemma_sphere_roots_ordered(s, ray);
}

/// The outward-normal contract of a sphere hit: the stored normal is the
/// normalized offset from the center, flipped to face the incoming ray,
/// and `front_face` records whether the unflipped normal already faced it.
pub proof fn lemma_sphere_outward_normal(s: Sphere, ray: Ray, min: int, max: int, h: Hit)
    requires
        sphere_hit_spec(s, ray, min, max) == Some(h),
    ensures
        h.front_face ==> h.normal@ == v_norm(v_sub(h.point@, s.position@)),
        !h.front_face ==> h.normal@ == v_neg(v_norm(v_sub(h.point@, s.position@))),
        h.front_face == (v_dot(v_norm(v_sub(h.point@, s.position@)), ray.direction@) < 0),
{
    reveal(sphere_hit_spec);
}

/// A sphere hit carries, in its distance field, exactly the parameter
/// the root search chose.
pub proof fn lemma_sphere_hit_some_t(s: Sphere, ray: Ray, min: int, max: int, h: Hit)
    requires
        sphere_hit_spec(s, ray, min, max) == Some(h),
    ensures
        sphere_hit_t(s, ray, min, max) == Some(h.distance@),
        min < h.distance@ < max,
{
    reveal(sphere_hit_spec);
    lemma_sphere_returns_smaller_root(s, ray, min, max);
}

/// Shrinking the far bound past a strike hides it entirely.
pub proof fn lemma_sphere_hit_gone_when_shrunk(
    s: Sphere,
    ray: Ray,
    min: int,
    max: int,
    max2: int,
    h: Hit,
)
    requires
        sphere_hit_spec(s, ray, min, max) == Some(h),
        max2 <= max,
        max2 <= h.distance@,
    ensures
        sphere_hit_spec(s, ray, min, max2) is None,
{
    reveal(sphere_hit_spec);
    lemma_sphere_hit_some_t(s, ray, min, max, h);
    lemma_sphere_hit_shrink(s, ray, min, max, max2);
}

/// Shrinking the far bound to anything beyond a strike keeps that strike
/// unchanged.
pub proof fn lemma_sphere_hit_kept_when_shrunk(
    s: Sphere,
    ray: Ray,
    min: int,
    max: int,
    max2: int,
    h: Hit,
)
    requires
        sphere_hit_spec(s, ray, min, max) == Some(h),
        h.distance@ < max2 <= max,
    ensures
        sphere_hit_spec(s, ray, min, max2) == Some(h),
{
    reveal(sphere_hit_spec);
    lemma_sphere_hit_some_t(s, ray, min, max, h);
    lemma_sphere_hit_shrink(s, ray, min, max, max2);
}

/// A strike found under a shrunken far bound is the same strike the
/// full interval yields.
pub proof fn lemma_sphere_hit_unshrunk(
    s: Sphere,
    ray: Ray,
    min: int,
    max: int,
    max2: int,
    h: Hit,
)
    requires
        max2 <= max,
        sphere_hit_spec(s, ray, min, max2) == Some(h),
    ensures
        sphere_hit_spec(s, ray, min, max) == Some(h),
{
    reveal(sphere_hit_spec);
    lemma_sphere_hit_shrink(s, ray, min, max, max2);
}

/// When the shrunken interval yields nothing, whatever the full interval
/// yields lies at or beyond the shrunken bound.
pub proof fn lemma_sphere_hit_blocked(s: Sphere, ray: Ray, min: int, max: int, max2: int)
    requires
        max2 <= max,
        sphere_hit_spec(s, ray, min, max2) is None,
    ensures
        match sphere_hit_spec(s, ray, min, max) {
            Some(h2) => h2.distance@ >= max2,
            None => true,
        },
{
    reveal(sphere_hit_spec);
    lemma_sphere_hit_shrink(s, ray, min, max, max2);
    if let Some(h2) = sphere_hit_spec(s, ray, min, max) {
        lemma_sphere_hit_some_t(s, ray, min, max, h2);
    }
}

impl Hittable for Sphere {
    open spec fn hit_spec(&self, ray: Ray, min: int, max: int) -> Option<Hit> {
        sphere_hit_spec(*self, ray, min, max)
    }

    fn hit(&self, ray: &Ray, min: Fx, max: Fx) -> (r: Option<Hit>) {
        proof {
            reveal(sphere_hit_spec);
        }
        let tmp = self.position.sub(ray.origin);

        // The quadratic equation with the factor of two taken out.
        let a = ray.direction.length_squared();
        let h = ray.direction.dot(tmp);
        let c = tmp.length_squared().sub(self.radius.mul(self.radius));

        let discriminant = h.mul(h).sub(a.mul(c));

        // No real solutions: the ray misses.
        if discriminant.raw < 0 {
            return None;
        }

        let sqrtd = discriminant.sqrt();
        let t1 = h.sub(sqrtd).div(a);
        let t2 = h.add(sqrtd).div(a);

        let chosen = if min.lt(t1) && t1.lt(max) {
            Some(t1)
        } else if min.lt(t2) && t2.lt(max) {
            Some(t2)
        } else {
            None
        };
        match chosen {
            None => None,
            Some(x) => {
                let point = ray.at(x);
                let outward_normal = point.sub(self.position).normalize();
                let front_face = outward_normal.dot(ray.direction).raw < 0;
                let normal = if front_face {
                    outward_normal
                } else {
                    outward_normal.neg()
                };
                Some(
                    Hit {
                        point,
                        normal,
                        distance: x,
                        shade: x,
                        front_face,
                        material: self.material,
                    },
                )
            },
        }
    }
}

} // verus!
