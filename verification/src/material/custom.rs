//! A custom pattern material: a pure emitter colored by a Newton fractal.

use crate::fixed::{fx_add, fx_div, fx_mul, fx_neg, fx_sub, Fx, SCALE};
use crate::hittable::Hit;
use crate::material::traits::Material;
use crate::random::SeededRng;
use crate::ray::Ray;
use crate::vec::{Vec3, V3};
use vstd::prelude::*;

verus! {

/// A complex number as a pair of raw fixed-point values.
pub type C2 = (int, int);

/// Complex difference.
pub open spec fn c_sub(a: C2, b: C2) -> C2 {
    (fx_sub(a.0, b.0), fx_sub(a.1, b.1))
}

/// Complex product.
pub open spec fn c_mul(a: C2, b: C2) -> C2 {
    (
        fx_sub(fx_mul(a.0, b.0), fx_mul(a.1, b.1)),
        fx_add(fx_mul(a.0, b.1), fx_mul(a.1, b.0)),
    )
}

/// Complex quotient: conjugate trick over the squared norm of `b`.
pub open spec fn c_div(a: C2, b: C2) -> C2 {
    let den = fx_add(fx_mul(b.0, b.0), fx_mul(b.1, b.1));
    (
        fx_div(fx_add(fx_mul(a.0, b.0), fx_mul(a.1, b.1)), den),
        fx_div(fx_sub(fx_mul(a.1, b.0), fx_mul(a.0, b.1)), den),
    )
}

/// One damped Newton step for `z^2 - 1`, with damping factor `1 + i`:
/// `z - (z^2 - 1) / (2 z) * (1 + i)`.
pub open spec fn newton_step(z: C2) -> C2 {
    let num = c_sub(c_mul(z, z), (SCALE as int, 0));
    let den = c_mul((2 * (SCALE as int), 0), z);
    c_sub(z, c_mul(c_div(num, den), (SCALE as int, SCALE as int)))
}

/// `n` Newton steps from `z`.
pub open spec fn newton_iter(z: C2, n: nat) -> C2
    decreases n,
{
    if n == 0 {
        z
    } else {
        newton_step(newton_iter(z, (n - 1) as nat))
    }
}

/// The fractal coloring of a point: 32 Newton steps seeded with the x and
/// z coordinates, then `(|re|, |im|, im)`.
#[verifier::opaque]
pub open spec fn fractal_color(point: V3) -> V3 {
    let zf = newton_iter((point.0, point.2), 32);
    (
        if zf.0 >= 0 {
            zf.0
        } else {
            fx_neg(zf.0)
        },
        if zf.1 >= 0 {
            zf.1
        } else {
            fx_neg(zf.1)
        },
        zf.1,
    )
}

/// A pattern emitter colored by a Newton fractal of the hit position:
/// it never continues the path, it only returns the fractal color.
#[derive(Clone, Copy, PartialEq, Eq, Structural, Debug)]
pub struct Custom {}

impl Custom {
    /// The fractal-colored emitter.
    pub fn new() -> (r: Custom)
        ensures
            r == (Custom {  }),
    {
        Custom {  }
    }
}

/// The fractal coloring, computed by 32 damped Newton steps.
fn fractal(point: Vec3) -> (r: Vec3)
    ensures
        r@ == fractal_color(point@),
{
    proof {
        reveal(fractal_color);
    }
    let mut re = point.x;
    let mut im = point.z;
    let two = Fx::from_int(2);
    let one = Fx::one();
    let mut i: u32 = 0;
    while i < 32
        invariant
            (re@, im@) == newton_iter((point@.0, point@.2), i as nat),
            i <= 32,
            one@ == SCALE as int,
            two@ == 2 * (SCALE as int),
        decreases 32 - i,
    {
        let ghost zp = (re@, im@);
        let num_re = re.mul(re).sub(im.mul(im)).sub(one);
        let num_im = re.mul(im).add(im.mul(re));
        let den_re = two.mul(re).sub(Fx { raw: 0 }.mul(im));
        let den_im = two.mul(im).add(Fx { raw: 0 }.mul(re));
        let nsq = den_re.mul(den_re).add(den_im.mul(den_im));
        let q_re = num_re.mul(den_re).add(num_im.mul(den_im)).div(nsq);
        let q_im = num_im.mul(den_re).sub(num_re.mul(den_im)).div(nsq);
        let s_re = q_re.mul(one).sub(q_im.mul(one));
        let s_im = q_re.mul(one).add(q_im.mul(one));
        re = re.sub(s_re);
        im = im.sub(s_im);
        proof {
            assert((re@, im@) == newton_step(zp));
        }
        i = i + 1;
    }
    Vec3::new(re.abs(), im.abs(), im)
}

impl Material for Custom {
    /// Deterministic: the attenuation is the fractal color of the struck
    /// point and there is no continuation ray — a pure light source.
    open spec fn scatter_ok(&self, ray: Ray, hit: Hit, r: Option<(Vec3, Option<Ray>)>) -> bool {
        match r {
            Some(pair) => pair.0@ == fractal_color(hit.point@) && pair.1 is None,
            None => false,
        }
    }

    fn scatter(&self, _ray: &Ray, hit: &Hit, _rng: &mut SeededRng) -> (r: Option<
        (Vec3, Option<Ray>),
    >) {
        Some((fractal(hit.point), None))
    }
}

} // verus!
