//! Saturating fixed-point scalars.
//!
//! A value is stored as a raw `i64` count of `1 / SCALE` units, so the
//! represented number is `raw / SCALE`. All operations are total: results
//! that fall outside the `i64` range saturate at the ends, and division by
//! zero saturates by the sign of the dividend. Every operation has an exact
//! integer specification (`fx_add`, `fx_mul`, ...), stated over the raw
//! values, which the rest of the library builds its contracts on.

use vstd::arithmetic::div_mod::{
    lemma_fundamental_div_mod, lemma_fundamental_div_mod_converse,
};
use vstd::prelude::*;

verus! {

/// Raw units per 1.0: a value of `Fx` is its raw count divided by `SCALE`.
pub const SCALE: i64 = 0x1_0000_0000;

/// Raw value of one half.
pub const HALF_RAW: i64 = 0x8000_0000;

/// Saturate an unbounded integer into the `i64` range.
pub open spec fn clip(x: int) -> int {
    if x > i64::MAX {
        i64::MAX as int
    } else if x < i64::MIN {
        i64::MIN as int
    } else {
        x
    }
}

/// Quotient rounded toward negative infinity, for any nonzero divisor.
///
/// Spec-level `/` is Euclidean, which rounds toward negative infinity
/// exactly when the divisor is positive; flipping both signs reduces the
/// negative-divisor case to that one.
pub open spec fn div_floor(p: int, q: int) -> int {
    if q > 0 {
        p / q
    } else {
        (-p) / (-q)
    }
}

/// Sum, saturated.
pub open spec fn fx_add(a: int, b: int) -> int {
    clip(a + b)
}

/// Difference, saturated.
pub open spec fn fx_sub(a: int, b: int) -> int {
    clip(a - b)
}

/// Negation, saturated (the negation of `i64::MIN` clips to `i64::MAX`).
pub open spec fn fx_neg(a: int) -> int {
    clip(-a)
}

/// Product of two fixed-point values: the raw product rescaled by `SCALE`,
/// rounded toward negative infinity, saturated.
pub open spec fn fx_mul(a: int, b: int) -> int {
    clip(div_floor(a * b, SCALE as int))
}

/// Quotient of two fixed-point values, rounded toward negative infinity,
/// saturated. A zero divisor saturates by the sign of the dividend, the
/// fixed-point stand-in for the infinities of floating point.
pub open spec fn fx_div(a: int, b: int) -> int {
    if b == 0 {
        if a > 0 {
            i64::MAX as int
        } else if a < 0 {
            i64::MIN as int
        } else {
            0
        }
    } else {
        clip(div_floor(a * (SCALE as int), b))
    }
}

/// The greatest `r` with `r * r <= n`.
pub open spec fn sqrt_floor(n: nat) -> nat
    decreases n,
{
    if n == 0 {
        0
    } else {
        let r = sqrt_floor((n - 1) as nat);
        if (r + 1) * (r + 1) <= n {
            r + 1
        } else {
            r
        }
    }
}

/// Square root of a fixed-point value, rounded toward zero; negative
/// arguments give zero.
pub open spec fn fx_sqrt(a: int) -> int {
    if a <= 0 {
        0
    } else {
        sqrt_floor((a * (SCALE as int)) as nat) as int
    }
}

/// `sqrt_floor(n)` is characterized by `r * r <= n < (r + 1) * (r + 1)`.
pub proof fn lemma_sqrt_floor_bounds(n: nat)
    ensures
        sqrt_floor(n) * sqrt_floor(n) <= n,
        n < (sqrt_floor(n) + 1) * (sqrt_floor(n) + 1),
    decreases n,
{
    if n == 0 {
        assert(sqrt_floor(0) == 0);
        assert((sqrt_floor(0) + 1) * (sqrt_floor(0) + 1) == 1) by (nonlinear_arith)
            requires
                sqrt_floor(0) == 0,
        ;
    } else {
        let m = (n - 1) as nat;
        lemma_sqrt_floor_bounds(m);
        let r = sqrt_floor(m);
        let s = sqrt_floor(n);
        assert(s == if (r + 1) * (r + 1) <= n {
            r + 1
        } else {
            r
        });
        if (r + 1) * (r + 1) <= n {
            assert(s * s <= n);
            assert(n < (s + 1) * (s + 1)) by (nonlinear_arith)
                requires
                    s == r + 1,
                    m < (r + 1) * (r + 1),
                    n == m + 1,
            ;
        } else {
            assert(s * s <= n) by (nonlinear_arith)
                requires
                    s == r,
                    r * r <= m,
                    n == m + 1,
            ;
            assert(n < (s + 1) * (s + 1));
        }
    }
}

/// No other value satisfies the `sqrt_floor` characterization.
pub proof fn lemma_sqrt_floor_unique(n: nat, r: nat)
    requires
        r * r <= n,
        n < (r + 1) * (r + 1),
    ensures
        r == sqrt_floor(n),
{
    lemma_sqrt_floor_bounds(n);
    let s = sqrt_floor(n);
    if r < s {
        assert((r + 1) * (r + 1) <= s * s) by (nonlinear_arith)
            requires
                r + 1 <= s,
        ;
    }
    if s < r {
        assert((s + 1) * (s + 1) <= r * r) by (nonlinear_arith)
            requires
                s + 1 <= r,
        ;
    }
}

/// Any value packed back into `Fx`, for building model values in specs.
pub open spec fn fx_of(v: int) -> Fx {
    Fx { raw: v as i64 }
}

/// A fixed-point square is never negative.
pub proof fn lemma_fx_mul_square_nonneg(x: int)
    ensures
        fx_mul(x, x) >= 0,
{
    assert(x * x >= 0) by (nonlinear_arith);
    vstd::arithmetic::div_mod::lemma_div_pos_is_pos(x * x, SCALE as int);
}

/// Division by a nonnegative value keeps the order of the dividends.
pub proof fn lemma_fx_div_monotone_num(n1: int, n2: int, b: int)
    requires
        n1 <= n2,
        b >= 0,
    ensures
        fx_div(n1, b) <= fx_div(n2, b),
{
    if b > 0 {
        vstd::arithmetic::mul::lemma_mul_inequality(n1, n2, SCALE as int);
        vstd::arithmetic::div_mod::lemma_div_is_ordered(
            n1 * (SCALE as int),
            n2 * (SCALE as int),
            b,
        );
    }
}

/// A product of values in `[-1, 1]` stays in `[-1, 1]`.
pub proof fn lemma_fx_mul_unit(a: int, b: int)
    requires
        -(SCALE as int) <= a <= SCALE as int,
        -(SCALE as int) <= b <= SCALE as int,
    ensures
        -(SCALE as int) <= fx_mul(a, b) <= SCALE as int,
{
    let s = SCALE as int;
    assert(-(s * s) <= a * b <= s * s) by (nonlinear_arith)
        requires
            -s <= a <= s,
            -s <= b <= s,
            s > 0,
    ;
    lemma_fundamental_div_mod_converse(s * s, s, s, 0);
    lemma_fundamental_div_mod_converse(-(s * s), s, -s, 0);
    vstd::arithmetic::div_mod::lemma_div_is_ordered(a * b, s * s, s);
    vstd::arithmetic::div_mod::lemma_div_is_ordered(-(s * s), a * b, s);
}

/// The square root of a value at most one is at most one.
pub proof fn lemma_fx_sqrt_le_scale(a: int)
    requires
        a <= SCALE as int,
    ensures
        0 <= fx_sqrt(a) <= SCALE as int,
{
    if a > 0 {
        let s = SCALE as int;
        let n = (a * s) as nat;
        assert(a * s <= s * s) by (nonlinear_arith)
            requires
                0 < a <= s,
        ;
        lemma_sqrt_floor_bounds(n);
        let r = sqrt_floor(n);
        if r > s {
            assert(r * r > (s * s) + 0) by (nonlinear_arith)
                requires
                    r >= s + 1,
                    s > 0,
            ;
        }
    }
}

/// Exact values of the basic operations on zero and one, used to check
/// concrete configurations (an axis-aligned camera basis) against
/// nondegeneracy conditions.
pub proof fn lemma_fx_one_facts()
    ensures
        fx_mul(0, 0) == 0,
        fx_mul(0, SCALE as int) == 0,
        fx_mul(SCALE as int, 0) == 0,
        fx_mul(SCALE as int, SCALE as int) == SCALE as int,
        fx_mul(-(SCALE as int), -(SCALE as int)) == SCALE as int,
        fx_div(0, SCALE as int) == 0,
        fx_div(SCALE as int, SCALE as int) == SCALE as int,
        fx_sqrt(SCALE as int) == SCALE as int,
{
    let s = SCALE as int;
    lemma_fundamental_div_mod_converse(0, s, 0, 0);
    lemma_fundamental_div_mod_converse(s * s, s, s, 0);
    assert((-s) * (-s) == s * s) by (nonlinear_arith);
    assert(s * s < (s + 1) * (s + 1)) by (nonlinear_arith)
        requires
            s > 0,
    ;
    lemma_sqrt_floor_unique((s * s) as nat, s as nat);
}

/// A fixed-point number: the real value `raw / SCALE`. The representable
/// range is about `[-2.1e9, 2.1e9]` with a resolution of about `2.3e-10`;
/// arithmetic saturates at the ends of the range.
#[derive(Clone, Copy, PartialEq, Eq, Structural, Debug)]
pub struct Fx {
    pub raw: i64,
}

impl View for Fx {
    type V = int;

    open spec fn view(&self) -> int {
        self.raw as int
    }
}

/// The product of two `i64`-range values stays strictly inside the `i128`
/// range.
pub(crate) proof fn lemma_i64_product_fits(a: int, b: int)
    requires
        i64::MIN <= a <= i64::MAX,
        i64::MIN <= b <= i64::MAX,
    ensures
        a * b < i128::MAX,
        a * b > i128::MIN,
{
    assert(a * b < i128::MAX && a * b > i128::MIN) by (nonlinear_arith)
        requires
            -0x8000_0000_0000_0000 <= a <= 0x7FFF_FFFF_FFFF_FFFF,
            -0x8000_0000_0000_0000 <= b <= 0x7FFF_FFFF_FFFF_FFFF,
    ;
}

/// Saturate an `i128` into the `i64` range.
pub(crate) fn clip_exec(x: i128) -> (r: i64)
    ensures
        r as int == clip(x as int),
{
    if x > i64::MAX as i128 {
        i64::MAX
    } else if x < i64::MIN as i128 {
        i64::MIN
    } else {
        x as i64
    }
}

/// Quotient of `p` by a positive `q`, rounded toward negative infinity.
pub(crate) fn floor_div_i128(p: i128, q: i128) -> (r: i128)
    requires
        q > 0,
        p > i128::MIN,
    ensures
        r == div_floor(p as int, q as int),
{
    if p >= 0 {
        let d = (p as u128) / (q as u128);
        assert(d <= p as u128) by (nonlinear_arith)
            requires
                d == (p as u128) / (q as u128),
                q >= 1,
        ;
        assert(d as int == p as int / q as int);
        d as i128
    } else {
        let m = (-p) as u128;
        let d = m / (q as u128);
        let rem = m % (q as u128);
        assert(d <= m) by (nonlinear_arith)
            requires
                d == m / (q as u128),
                q >= 1,
        ;
        proof {
            lemma_fundamental_div_mod(m as int, q as int);
        }
        if rem == 0 {
            proof {
                assert(p as int == (-(d as int)) * (q as int) + 0) by (nonlinear_arith)
                    requires
                        m as int == (q as int) * ((m as int) / (q as int)) + (
                        (m as int) % (q as int)),
                        d as int == (m as int) / (q as int),
                        (m as int) % (q as int) == 0,
                        p as int == -(m as int),
                ;
                lemma_fundamental_div_mod_converse(p as int, q as int, -(d as int), 0);
            }
            -(d as i128)
        } else {
            proof {
                assert(p as int == (-(d as int) - 1) * (q as int) + ((q as int) - (rem as int)))
                    by (nonlinear_arith)
                    requires
                        m as int == (q as int) * ((m as int) / (q as int)) + (
                        (m as int) % (q as int)),
                        d as int == (m as int) / (q as int),
                        rem as int == (m as int) % (q as int),
                        p as int == -(m as int),
                ;
                lemma_fundamental_div_mod_converse(
                    p as int,
                    q as int,
                    -(d as int) - 1,
                    (q as int) - (rem as int),
                );
            }
            -(d as i128) - 1
        }
    }
}

/// Square root of `n`, rounded down. The bound on `n` keeps the binary
/// search's square inside `u128`.
fn isqrt(n: u128) -> (r: u64)
    requires
        n < 0x1_0000_0000_0000_0000_0000_0000,  // 2^96
    ensures
        r as nat == sqrt_floor(n as nat),
{
    if n == 0 {
        assert(sqrt_floor(0) == 0);
        return 0u64;
    }
    let mut lo: u128 = 0;
    let mut hi: u128 = 0x1_0000_0000_0000;  // 2^48
    assert(hi * hi > n) by (nonlinear_arith)
        requires
            hi == 0x1_0000_0000_0000,
            n < 0x1_0000_0000_0000_0000_0000_0000,
    ;
    while lo + 1 < hi
        invariant
            lo < hi,
            hi <= 0x1_0000_0000_0000,
            lo * lo <= n,
            n < hi * hi,
        decreases hi - lo,
    {
        let mid = lo + (hi - lo) / 2;
        assert(lo < mid < hi);
        assert(mid * mid < 0x1_0000_0000_0000_0000_0000_0000) by (nonlinear_arith)
            requires
                mid < 0x1_0000_0000_0000,
        ;
        if mid * mid <= n {
            lo = mid;
        } else {
            hi = mid;
        }
    }
    proof {
        lemma_sqrt_floor_unique(n as nat, lo as nat);
    }
    lo as u64
}

impl Fx {
    /// The value zero.
    pub fn zero() -> (r: Fx)
        ensures
            r@ == 0,
    {
        Fx { raw: 0 }
    }

    /// The value one (`SCALE` raw units).
    pub fn one() -> (r: Fx)
        ensures
            r@ == SCALE as int,
    {
        Fx { raw: SCALE }
    }

    /// Build a value directly from its raw unit count.
    pub fn from_raw(raw: i64) -> (r: Fx)
        ensures
            r@ == raw as int,
    {
        Fx { raw }
    }

    /// The value `n`, saturated into range.
    pub fn from_int(n: i64) -> (r: Fx)
        ensures
            r@ == clip(n * (SCALE as int)),
    {
        proof {
            lemma_i64_product_fits(n as int, SCALE as int);
        }
        Fx { raw: clip_exec((n as i128) * (SCALE as i128)) }
    }

    /// Sum, saturated.
    pub fn add(self, rhs: Fx) -> (r: Fx)
        ensures
            r@ == fx_add(self@, rhs@),
    {
        Fx { raw: clip_exec((self.raw as i128) + (rhs.raw as i128)) }
    }

    /// Difference, saturated.
    pub fn sub(self, rhs: Fx) -> (r: Fx)
        ensures
            r@ == fx_sub(self@, rhs@),
    {
        Fx { raw: clip_exec((self.raw as i128) - (rhs.raw as i128)) }
    }

    /// Negation, saturated.
    pub fn neg(self) -> (r: Fx)
        ensures
            r@ == fx_neg(self@),
    {
        Fx { raw: clip_exec(-(self.raw as i128)) }
    }

    /// Product, rescaled by `SCALE`, rounded toward negative infinity,
    /// saturated.
    pub fn mul(self, rhs: Fx) -> (r: Fx)
        ensures
            r@ == fx_mul(self@, rhs@),
    {
        proof {
            lemma_i64_product_fits(self.raw as int, rhs.raw as int);
        }
        let p = (self.raw as i128) * (rhs.raw as i128);
        Fx { raw: clip_exec(floor_div_i128(p, SCALE as i128)) }
    }

    /// Quotient, rounded toward negative infinity, saturated; a zero
    /// divisor saturates by the sign of the dividend.
    pub fn div(self, rhs: Fx) -> (r: Fx)
        ensures
            r@ == fx_div(self@, rhs@),
    {
        if rhs.raw == 0 {
            if self.raw > 0 {
                Fx { raw: i64::MAX }
            } else if self.raw < 0 {
                Fx { raw: i64::MIN }
            } else {
                Fx { raw: 0 }
            }
        } else {
            proof {
                lemma_i64_product_fits(self.raw as int, SCALE as int);
            }
            let p = (self.raw as i128) * (SCALE as i128);
            if rhs.raw > 0 {
                Fx { raw: clip_exec(floor_div_i128(p, rhs.raw as i128)) }
            } else {
                Fx { raw: clip_exec(floor_div_i128(-p, -(rhs.raw as i128))) }
            }
        }
    }

    /// Square root, rounded down; zero on negative arguments.
    pub fn sqrt(self) -> (r: Fx)
        ensures
            r@ == fx_sqrt(self@),
    {
        if self.raw <= 0 {
            Fx { raw: 0 }
        } else {
            let n = (self.raw as u128) * (SCALE as u128);
            assert(n < 0x1_0000_0000_0000_0000_0000_0000) by (nonlinear_arith)
                requires
                    n == (self.raw as int) * (SCALE as int),
                    0 < self.raw <= i64::MAX,
                    SCALE == 0x1_0000_0000,
            ;
            let r = isqrt(n);
            proof {
                lemma_sqrt_floor_bounds(n as nat);
                assert(sqrt_floor(n as nat) < 0x1_0000_0000_0000) by (nonlinear_arith)
                    requires
                        sqrt_floor(n as nat) * sqrt_floor(n as nat) <= n as nat,
                        n < 0x1_0000_0000_0000_0000_0000_0000,
                ;
            }
            Fx { raw: r as i64 }
        }
    }

    /// Comparison on the represented values.
    pub fn lt(self, rhs: Fx) -> (r: bool)
        ensures
            r == (self@ < rhs@),
    {
        self.raw < rhs.raw
    }

    /// Comparison on the represented values.
    pub fn le(self, rhs: Fx) -> (r: bool)
        ensures
            r == (self@ <= rhs@),
    {
        self.raw <= rhs.raw
    }

    /// The smaller of the two values.
    pub fn min(self, rhs: Fx) -> (r: Fx)
        ensures
            r@ == if self@ <= rhs@ { self@ } else { rhs@ },
    {
        if self.raw <= rhs.raw {
            self
        } else {
            rhs
        }
    }

    /// The larger of the two values.
    pub fn max(self, rhs: Fx) -> (r: Fx)
        ensures
            r@ == if self@ >= rhs@ { self@ } else { rhs@ },
    {
        if self.raw >= rhs.raw {
            self
        } else {
            rhs
        }
    }

    /// The value clamped into `[lo, hi]`.
    pub fn clamp(self, lo: Fx, hi: Fx) -> (r: Fx)
        requires
            lo@ <= hi@,
        ensures
            r@ == if self@ < lo@ { lo@ } else if self@ > hi@ { hi@ } else { self@ },
    {
        if self.raw < lo.raw {
            lo
        } else if self.raw > hi.raw {
            hi
        } else {
            self
        }
    }

    /// Absolute value, saturated.
    pub fn abs(self) -> (r: Fx)
        ensures
            r@ == if self@ >= 0 { self@ } else { fx_neg(self@) },
    {
        if self.raw >= 0 {
            self
        } else {
            self.neg()
        }
    }
}

} // verus!
