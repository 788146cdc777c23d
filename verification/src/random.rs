//! Random sampling helpers.
//!
//! All randomness is drawn from a seeded generator ([`SeededRng`]) wrapped
//! around an outside pseudorandom source. Only the raw draw is trusted,
//! and only for its range; everything built on top of it is verified.
//! Since a draw's value is unknowable, the contracts here state range
//! bounds and, where a caller needs it, the exact shape of the result in
//! terms of the draws.

use crate::fixed::{fx_mul, fx_sqrt, Fx, SCALE};
use crate::trans::{cos_fx, sin_fx, PI_RAW, TWO_PI_RAW};
use crate::vec::{v_dot, v_neg, Vec3, V3};
use vstd::prelude::*;

verus! {

/// The outside generator type, declared so it can stand in a field;
/// its behavior enters only through the two trusted draws below.
#[verifier::external_type_specification]
#[verifier::external_body]
pub struct ExFastrandRng(fastrand::Rng);

/// A deterministic pseudorandom generator. Reseeding with the same value
/// reproduces the same stream, which makes renders reproducible.
pub struct SeededRng {
    inner: fastrand::Rng,
}

/// Whether every component of `v` lies in `[-1, 1]`.
pub open spec fn in_unit_box(v: V3) -> bool {
    &&& -(SCALE as int) <= v.0 <= SCALE as int
    &&& -(SCALE as int) <= v.1 <= SCALE as int
    &&& -(SCALE as int) <= v.2 <= SCALE as int
}

impl SeededRng {
    /// Relies on fastrand::Rng::with_seed: a generator whose stream is a
    /// function of the seed alone.
    #[verifier::external_body]
    pub fn with_seed(seed: u64) -> SeededRng {
        SeededRng { inner: fastrand::Rng::with_seed(seed) }
    }

    /// Relies on fastrand::Rng::i64: a draw within the requested range
    /// (here `[0, SCALE)`, that is `[0.0, 1.0)` in fixed point).
    #[verifier::external_body]
    pub fn next_unit(&mut self) -> (r: Fx)
        ensures
            0 <= r@ < SCALE as int,
    {
        Fx { raw: self.inner.i64(0..SCALE) }
    }
}

/// The zero jitter pair, for sampling without randomness.
pub fn nothing() -> (r: (Fx, Fx))
    ensures
        r.0@ == 0,
        r.1@ == 0,
{
    (Fx { raw: 0 }, Fx { raw: 0 })
}

/// A point uniformly in the square `[-0.5, 0.5)^2`.
pub fn random_square(rng: &mut SeededRng) -> (r: (Fx, Fx))
    ensures
        -(SCALE as int) / 2 <= r.0@ < (SCALE as int) / 2,
        -(SCALE as int) / 2 <= r.1@ < (SCALE as int) / 2,
{
    let half = Fx { raw: SCALE / 2 };
    (rng.next_unit().sub(half), rng.next_unit().sub(half))
}

/// The shape of a disc sample in terms of its two uniform draws: the
/// angle draw `t` scaled to a whole turn, the radius the square root of
/// the draw `u`, and the sample `radius * (sin, cos)` of the angle.
pub open spec fn disc_draws(t: int, u: int, r: (int, int)) -> bool {
    let theta = fx_mul(t, TWO_PI_RAW as int);
    &&& 0 <= t < SCALE as int
    &&& 0 <= u < SCALE as int
    &&& r.0 == fx_mul(fx_sqrt(u), sin_fx(theta))
    &&& r.1 == fx_mul(fx_sqrt(u), cos_fx(theta))
}

/// A point on the unit disc, drawn by angle and square-rooted radius:
/// some pair of uniform draws produces exactly this value, and both
/// coordinates lie in `[-1, 1]`.
pub fn random_on_disc(rng: &mut SeededRng) -> (r: (Fx, Fx))
    ensures
        -(SCALE as int) <= r.0@ <= SCALE as int,
        -(SCALE as int) <= r.1@ <= SCALE as int,
        exists|t: int, u: int| #[trigger] disc_draws(t, u, (r.0@, r.1@)),
{
    let t = rng.next_unit();
    let theta = t.mul(Fx { raw: TWO_PI_RAW });
    let u = rng.next_unit();
    let radius = u.sqrt();
    let s = theta.sin();
    let c = theta.cos();
    proof {
        crate::fixed::lemma_fx_sqrt_le_scale(u@);
        crate::fixed::lemma_fx_mul_unit(radius@, s@);
        crate::fixed::lemma_fx_mul_unit(radius@, c@);
    }
    let out = (radius.mul(s), radius.mul(c));
    proof {
        assert(disc_draws(t@, u@, (out.0@, out.1@)));
    }
    out
}

/// The shape of a unit-sphere sample in terms of its two uniform draws:
/// a polar angle from `t` scaled by pi, an azimuth from `p` scaled by a
/// whole turn, and the usual spherical coordinates of the pair.
pub open spec fn unit_vector_draws(t: int, p: int, r: V3) -> bool {
    let theta = fx_mul(t, PI_RAW as int);
    let phi = fx_mul(p, TWO_PI_RAW as int);
    &&& 0 <= t < SCALE as int
    &&& 0 <= p < SCALE as int
    &&& r == (
        fx_mul(sin_fx(theta), cos_fx(phi)),
        fx_mul(sin_fx(theta), sin_fx(phi)),
        cos_fx(theta),
    )
}

/// Whether `u` is a value the unit-sphere sampler can produce: some pair
/// of uniform draws maps to it.
pub open spec fn unit_sphere_sample(u: V3) -> bool {
    exists|t: int, p: int| #[trigger] unit_vector_draws(t, p, u)
}

/// A direction on the unit sphere, drawn by two angles: the spherical
/// coordinates of some pair of uniform draws, with every component in
/// `[-1, 1]`.
pub fn random_unit_vector(rng: &mut SeededRng) -> (r: Vec3)
    ensures
        in_unit_box(r@),
        unit_sphere_sample(r@),
{
    let t = rng.next_unit();
    let theta = t.mul(Fx { raw: PI_RAW });
    let p = rng.next_unit();
    let phi = p.mul(Fx { raw: TWO_PI_RAW });
    let st = theta.sin();
    let ct = theta.cos();
    let sp = phi.sin();
    let cp = phi.cos();
    proof {
        crate::fixed::lemma_fx_mul_unit(st@, cp@);
        crate::fixed::lemma_fx_mul_unit(st@, sp@);
    }
    let out = Vec3::new(st.mul(cp), st.mul(sp), ct);
    proof {
        assert(unit_vector_draws(t@, p@, out@));
    }
    out
}

/// How a hemisphere sample relates to the direction that was drawn: the
/// drawn direction is a unit-sphere sample, kept when it points with
/// `n` and negated otherwise.
pub open spec fn hemisphere_pick(n: V3, u: V3, r: V3) -> bool {
    &&& in_unit_box(u)
    &&& unit_sphere_sample(u)
    &&& r == if v_dot(n, u) > 0 {
        u
    } else {
        v_neg(u)
    }
}

/// A unit-box direction on the same side of the surface as `normal`: the
/// drawn direction, flipped when it points against `normal`.
pub fn random_on_hemisphere(rng: &mut SeededRng, normal: &Vec3) -> (r: Vec3)
    ensures
        in_unit_box(r@),
        exists|u: V3| #[trigger] hemisphere_pick(normal@, u, r@),
{
    let unit_vector = random_unit_vector(rng);
    let ghost u = unit_vector@;
    let d = normal.dot(unit_vector);
    if d.raw > 0 {
        assert(hemisphere_pick(normal@, u, unit_vector@));
        unit_vector
    } else {
        let flipped = unit_vector.neg();
        assert(hemisphere_pick(normal@, u, flipped@));
        flipped
    }
}

/// A color with each channel uniformly in `[0, 1)`.
pub fn random_colour(rng: &mut SeededRng) -> (r: Vec3)
    ensures
        0 <= r@.0 < SCALE as int,
        0 <= r@.1 < SCALE as int,
        0 <= r@.2 < SCALE as int,
{
    Vec3::new(rng.next_unit(), rng.next_unit(), rng.next_unit())
}

} // verus!
