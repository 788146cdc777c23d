//! Three-component fixed-point vectors.
//!
//! The view of a [`Vec3`] is the triple of raw component values, and every
//! operation has a spec twin (`v_add`, `v_dot`, ...) stated over such
//! triples, built from the scalar specifications of [`crate::fixed`].
//! `reflect`, `refract` and `lerp` follow the usual conventions of vector
//! math libraries: reflection about a unit normal, GLSL-style refraction
//! that yields the zero vector on total internal reflection, and
//! `a * (1 - s) + b * s` interpolation.

use crate::fixed::{fx_add, fx_div, fx_mul, fx_neg, fx_sqrt, fx_sub, Fx, SCALE};
use vstd::prelude::*;

verus! {

/// The view of a vector: its three raw component values.
pub type V3 = (int, int, int);

/// Raw approximate-equality tolerance, about 1e-9.
pub const APPROX_ERROR_RAW: i64 = 4;

/// Componentwise sum.
pub open spec fn v_add(a: V3, b: V3) -> V3 {
    (fx_add(a.0, b.0), fx_add(a.1, b.1), fx_add(a.2, b.2))
}

/// Componentwise difference.
pub open spec fn v_sub(a: V3, b: V3) -> V3 {
    (fx_sub(a.0, b.0), fx_sub(a.1, b.1), fx_sub(a.2, b.2))
}

/// Componentwise negation.
pub open spec fn v_neg(a: V3) -> V3 {
    (fx_neg(a.0), fx_neg(a.1), fx_neg(a.2))
}

/// Scaling by a scalar.
pub open spec fn v_scale(a: V3, s: int) -> V3 {
    (fx_mul(a.0, s), fx_mul(a.1, s), fx_mul(a.2, s))
}

/// Componentwise product (used for color attenuation).
pub open spec fn v_mul(a: V3, b: V3) -> V3 {
    (fx_mul(a.0, b.0), fx_mul(a.1, b.1), fx_mul(a.2, b.2))
}

/// Dot product.
pub open spec fn v_dot(a: V3, b: V3) -> int {
    fx_add(fx_add(fx_mul(a.0, b.0), fx_mul(a.1, b.1)), fx_mul(a.2, b.2))
}

/// Cross product.
pub open spec fn v_cross(a: V3, b: V3) -> V3 {
    (
        fx_sub(fx_mul(a.1, b.2), fx_mul(a.2, b.1)),
        fx_sub(fx_mul(a.2, b.0), fx_mul(a.0, b.2)),
        fx_sub(fx_mul(a.0, b.1), fx_mul(a.1, b.0)),
    )
}

/// Squared length.
pub open spec fn v_len_sq(a: V3) -> int {
    v_dot(a, a)
}

/// Length.
pub open spec fn v_len(a: V3) -> int {
    fx_sqrt(v_len_sq(a))
}

/// Normalization: each component divided by the length. A vector whose
/// computed length is zero (including vectors too short to measure at
/// fixed-point resolution) is returned unchanged.
pub open spec fn v_norm(a: V3) -> V3 {
    let l = v_len(a);
    if l == 0 {
        a
    } else {
        (fx_div(a.0, l), fx_div(a.1, l), fx_div(a.2, l))
    }
}

/// Reflection of `d` about the normal `n`: `d - 2 (d . n) n`.
pub open spec fn v_reflect(d: V3, n: V3) -> V3 {
    v_sub(d, v_scale(n, fx_mul(2 * (SCALE as int), v_dot(d, n))))
}

/// Refraction of the unit incident vector `d` at the unit normal `n` with
/// refraction ratio `eta`; the zero vector on total internal reflection.
pub open spec fn v_refract(d: V3, n: V3, eta: int) -> V3 {
    let n_dot_i = v_dot(n, d);
    let k = fx_sub(
        SCALE as int,
        fx_mul(fx_mul(eta, eta), fx_sub(SCALE as int, fx_mul(n_dot_i, n_dot_i))),
    );
    if k >= 0 {
        v_sub(v_scale(d, eta), v_scale(n, fx_add(fx_mul(eta, n_dot_i), fx_sqrt(k))))
    } else {
        (0, 0, 0)
    }
}

/// Linear interpolation `a * (1 - s) + b * s`.
pub open spec fn v_lerp(a: V3, b: V3, s: int) -> V3 {
    v_add(v_scale(a, fx_sub(SCALE as int, s)), v_scale(b, s))
}

/// Division of each component by a scalar.
pub open spec fn v_div(a: V3, s: int) -> V3 {
    (fx_div(a.0, s), fx_div(a.1, s), fx_div(a.2, s))
}

/// A triple packed back into a `Vec3`, for building model values in specs.
pub open spec fn vec3_of(v: V3) -> Vec3 {
    Vec3 { x: crate::fixed::fx_of(v.0), y: crate::fixed::fx_of(v.1), z: crate::fixed::fx_of(v.2) }
}

/// A vector of three fixed-point components.
#[derive(Clone, Copy, PartialEq, Eq, Structural, Debug)]
pub struct Vec3 {
    pub x: Fx,
    pub y: Fx,
    pub z: Fx,
}

impl View for Vec3 {
    type V = V3;

    open spec fn view(&self) -> V3 {
        (self.x@, self.y@, self.z@)
    }
}

impl Vec3 {
    /// The vector with the given components.
    pub fn new(x: Fx, y: Fx, z: Fx) -> (r: Vec3)
        ensures
            r@ == (x@, y@, z@),
    {
        Vec3 { x, y, z }
    }

    /// The zero vector.
    pub fn zero() -> (r: Vec3)
        ensures
            r@ == (0int, 0int, 0int),
    {
        Vec3 { x: Fx { raw: 0 }, y: Fx { raw: 0 }, z: Fx { raw: 0 } }
    }

    /// The all-ones vector.
    pub fn one() -> (r: Vec3)
        ensures
            r@ == (SCALE as int, SCALE as int, SCALE as int),
    {
        Vec3 { x: Fx { raw: SCALE }, y: Fx { raw: SCALE }, z: Fx { raw: SCALE } }
    }

    /// The vector with all three components equal to `v`.
    pub fn splat(v: Fx) -> (r: Vec3)
        ensures
            r@ == (v@, v@, v@),
    {
        Vec3 { x: v, y: v, z: v }
    }

    /// Componentwise sum.
    pub fn add(self, rhs: Vec3) -> (r: Vec3)
        ensures
            r@ == v_add(self@, rhs@),
    {
        Vec3 { x: self.x.add(rhs.x), y: self.y.add(rhs.y), z: self.z.add(rhs.z) }
    }

    /// Componentwise difference.
    pub fn sub(self, rhs: Vec3) -> (r: Vec3)
        ensures
            r@ == v_sub(self@, rhs@),
    {
        Vec3 { x: self.x.sub(rhs.x), y: self.y.sub(rhs.y), z: self.z.sub(rhs.z) }
    }

    /// Componentwise negation.
    pub fn neg(self) -> (r: Vec3)
        ensures
            r@ == v_neg(self@),
    {
        Vec3 { x: self.x.neg(), y: self.y.neg(), z: self.z.neg() }
    }

    /// Scaling by a scalar.
    pub fn scale(self, s: Fx) -> (r: Vec3)
        ensures
            r@ == v_scale(self@, s@),
    {
        Vec3 { x: self.x.mul(s), y: self.y.mul(s), z: self.z.mul(s) }
    }

    /// Componentwise product.
    pub fn mul(self, rhs: Vec3) -> (r: Vec3)
        ensures
            r@ == v_mul(self@, rhs@),
    {
        Vec3 { x: self.x.mul(rhs.x), y: self.y.mul(rhs.y), z: self.z.mul(rhs.z) }
    }

    /// Dot product.
    pub fn dot(self, rhs: Vec3) -> (r: Fx)
        ensures
            r@ == v_dot(self@, rhs@),
    {
        self.x.mul(rhs.x).add(self.y.mul(rhs.y)).add(self.z.mul(rhs.z))
    }

    /// Cross product.
    pub fn cross(self, rhs: Vec3) -> (r: Vec3)
        ensures
            r@ == v_cross(self@, rhs@),
    {
        Vec3 {
            x: self.y.mul(rhs.z).sub(self.z.mul(rhs.y)),
            y: self.z.mul(rhs.x).sub(self.x.mul(rhs.z)),
            z: self.x.mul(rhs.y).sub(self.y.mul(rhs.x)),
        }
    }

    /// Squared length.
    pub fn length_squared(self) -> (r: Fx)
        ensures
            r@ == v_len_sq(self@),
    {
        self.dot(self)
    }

    /// Length.
    pub fn length(self) -> (r: Fx)
        ensures
            r@ == v_len(self@),
    {
        self.dot(self).sqrt()
    }

    /// Normalization; vectors of measured length zero are returned
    /// unchanged.
    pub fn normalize(self) -> (r: Vec3)
        ensures
            r@ == v_norm(self@),
    {
        let l = self.length();
        if l.raw == 0 {
            self
        } else {
            Vec3 { x: self.x.div(l), y: self.y.div(l), z: self.z.div(l) }
        }
    }

    /// Reflection about the normal `n`.
    pub fn reflect(self, n: Vec3) -> (r: Vec3)
        ensures
            r@ == v_reflect(self@, n@),
    {
        self.sub(n.scale(Fx::from_int(2).mul(self.dot(n))))
    }

    /// Refraction at the normal `n` with ratio `eta`; zero on total
    /// internal reflection.
    pub fn refract(self, n: Vec3, eta: Fx) -> (r: Vec3)
        ensures
            r@ == v_refract(self@, n@, eta@),
    {
        let n_dot_i = n.dot(self);
        let k = Fx::one().sub(eta.mul(eta).mul(Fx::one().sub(n_dot_i.mul(n_dot_i))));
        if k.raw >= 0 {
            self.scale(eta).sub(n.scale(eta.mul(n_dot_i).add(k.sqrt())))
        } else {
            Vec3::zero()
        }
    }

    /// Linear interpolation toward `rhs` by `s`.
    pub fn lerp(self, rhs: Vec3, s: Fx) -> (r: Vec3)
        ensures
            r@ == v_lerp(self@, rhs@, s@),
    {
        self.scale(Fx::one().sub(s)).add(rhs.scale(s))
    }

    /// Each component divided by the scalar `s`.
    pub fn div(self, s: Fx) -> (r: Vec3)
        ensures
            r@ == v_div(self@, s@),
    {
        Vec3 { x: self.x.div(s), y: self.y.div(s), z: self.z.div(s) }
    }
}

/// One component of a normalization stays within eight raw units of
/// `[-1, 1]` once the divisor is the measured length: the length bounds
/// the component up to the rounding of the square, the root and the
/// division.
proof fn lemma_norm_component_bound(x: int, l: int)
    requires
        l >= SCALE as int,
        (l + 1) * (l + 1) > x * x - SCALE as int,
    ensures
        -(SCALE as int) - 8 <= fx_div(x, l) <= (SCALE as int) + 8,
{
    let s = SCALE as int;
    let m = if x >= 0 {
        x
    } else {
        -x
    };
    assert(m * m == x * x && m >= 0) by (nonlinear_arith)
        requires
            m == if x >= 0 {
                x
            } else {
                -x
            },
    ;
    if m > l {
        assert(l >= m - 2) by (nonlinear_arith)
            requires
                (l + 1) * (l + 1) > m * m - s,
                m > l,
                l >= s,
                s >= 16,
        ;
    }
    assert(m * s <= (s + 8) * l) by (nonlinear_arith)
        requires
            m <= l || l >= m - 2,
            0 <= m,
            l >= s,
            s >= 16,
    ;
    assert(x * s <= (s + 8) * l && -((s + 8) * l) <= x * s) by (nonlinear_arith)
        requires
            m * s <= (s + 8) * l,
            m * m == x * x,
            m >= 0,
            m == if x >= 0 {
                x
            } else {
                -x
            },
            s > 0,
            l > 0,
    ;
    vstd::arithmetic::div_mod::lemma_fundamental_div_mod_converse((s + 8) * l, l, s + 8, 0);
    vstd::arithmetic::div_mod::lemma_fundamental_div_mod_converse(-((s + 8) * l), l, -(s + 8), 0);
    vstd::arithmetic::div_mod::lemma_div_is_ordered(x * s, (s + 8) * l, l);
    vstd::arithmetic::div_mod::lemma_div_is_ordered(-((s + 8) * l), x * s, l);
}

/// For moderate components the squared term neither saturates nor loses
/// more than one unit: it stays below `2^60`, and
/// `fx_mul(x, x) * SCALE > x * x - SCALE`.
proof fn lemma_sq_term_bounds(x: int)
    requires
        -0x4000_0000_0000 <= x <= 0x4000_0000_0000,
    ensures
        0 <= fx_mul(x, x) <= 0x1000_0000_0000_0000,
        fx_mul(x, x) * (SCALE as int) > x * x - SCALE as int,
{
    let s = SCALE as int;
    crate::fixed::lemma_fx_mul_square_nonneg(x);
    assert(0 <= x * x <= 0x1000_0000_0000_0000 * s) by (nonlinear_arith)
        requires
            -0x4000_0000_0000 <= x <= 0x4000_0000_0000,
            s == 0x1_0000_0000,
    ;
    vstd::arithmetic::div_mod::lemma_fundamental_div_mod(x * x, s);
    vstd::arithmetic::div_mod::lemma_fundamental_div_mod_converse(
        0x1000_0000_0000_0000 * s,
        s,
        0x1000_0000_0000_0000,
        0,
    );
    vstd::arithmetic::div_mod::lemma_div_is_ordered(x * x, 0x1000_0000_0000_0000 * s, s);
    assert(((x * x) / s) * s > x * x - s) by (nonlinear_arith)
        requires
            x * x == s * ((x * x) / s) + (x * x) % s,
            0 <= (x * x) % s < s,
    ;
}

/// Near-unit normalization: a vector of measurable length (at least one)
/// and moderate magnitude normalizes to components within eight raw
/// units — about 2e-9 — of `[-1, 1]`. Exact unit length is out of reach
/// of fixed-point arithmetic; this is the sharp form of the invariant a
/// ray's direction carries after construction.
pub proof fn lemma_norm_bounded(a: V3)
    requires
        -0x4000_0000_0000 <= a.0 <= 0x4000_0000_0000,
        -0x4000_0000_0000 <= a.1 <= 0x4000_0000_0000,
        -0x4000_0000_0000 <= a.2 <= 0x4000_0000_0000,
        v_len_sq(a) >= SCALE as int,
    ensures
        -(SCALE as int) - 8 <= v_norm(a).0 <= (SCALE as int) + 8,
        -(SCALE as int) - 8 <= v_norm(a).1 <= (SCALE as int) + 8,
        -(SCALE as int) - 8 <= v_norm(a).2 <= (SCALE as int) + 8,
{
    let s = SCALE as int;
    let q = v_len_sq(a);
    lemma_sq_term_bounds(a.0);
    lemma_sq_term_bounds(a.1);
    lemma_sq_term_bounds(a.2);
    assert(q >= fx_mul(a.0, a.0) && q >= fx_mul(a.1, a.1) && q >= fx_mul(a.2, a.2));
    let l = v_len(a);
    crate::fixed::lemma_sqrt_floor_bounds((q * s) as nat);
    assert(q * s >= 0) by (nonlinear_arith)
        requires
            q > 0,
            s > 0,
    ;
    assert(l * l <= q * s && q * s < (l + 1) * (l + 1));
    assert(l >= s) by (nonlinear_arith)
        requires
            (l + 1) * (l + 1) > q * s,
            q >= s,
            l >= 0,
            s > 0,
    ;
    assert(q * s >= fx_mul(a.0, a.0) * s && q * s >= fx_mul(a.1, a.1) * s && q * s >= fx_mul(
        a.2,
        a.2,
    ) * s) by (nonlinear_arith)
        requires
            q >= fx_mul(a.0, a.0),
            q >= fx_mul(a.1, a.1),
            q >= fx_mul(a.2, a.2),
            s > 0,
    ;
    lemma_norm_component_bound(a.0, l);
    lemma_norm_component_bound(a.1, l);
    lemma_norm_component_bound(a.2, l);
}

/// Whether the length of `a` falls below `error`.
pub fn approx_zero_with_error(a: Vec3, error: Fx) -> (r: bool)
    ensures
        r == (v_len(a@) < error@),
{
    a.length().lt(error)
}

/// Whether `a` and `b` differ by a vector shorter than `error`.
pub fn approx_eq_with_error(a: Vec3, b: Vec3, error: Fx) -> (r: bool)
    ensures
        r == (v_len(v_sub(a@, b@)) < error@),
{
    approx_zero_with_error(a.sub(b), error)
}

/// Whether the length of `a` falls below the default tolerance.
pub fn approx_zero(a: Vec3) -> (r: bool)
    ensures
        r == (v_len(a@) < APPROX_ERROR_RAW as int),
{
    approx_zero_with_error(a, Fx { raw: APPROX_ERROR_RAW })
}

/// Whether `a` and `b` differ by a vector shorter than the default
/// tolerance.
pub fn approx_eq(a: Vec3, b: Vec3) -> (r: bool)
    ensures
        r == (v_len(v_sub(a@, b@)) < APPROX_ERROR_RAW as int),
{
    approx_eq_with_error(a, b, Fx { raw: APPROX_ERROR_RAW })
}

} // verus!
