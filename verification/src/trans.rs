//! Transcendental functions on fixed-point scalars.
//!
//! Each function is a truncated series or a rational approximation,
//! computed entirely with the saturating fixed-point operations of
//! [`crate::fixed`]. The specification of each function is the exact
//! integer formula the body evaluates (`sin_fx`, `ln_fx`, ...), so callers
//! reason about a fully pinned-down value; range facts (a sine lies in
//! `[-1, 1]`, an arccosine in `[0, pi]`) are enforced by final clamps and
//! stated alongside.

use crate::fixed::{
    clip, div_floor, fx_add, fx_div, fx_mul, fx_neg, fx_sqrt, fx_sub, Fx, SCALE,
};
use vstd::arithmetic::div_mod::lemma_fundamental_div_mod;
use vstd::arithmetic::power2::{lemma2_to64, pow2};
use vstd::prelude::*;

verus! {

/// Raw value of pi.
pub const PI_RAW: i64 = 13493037704;

/// Raw value of 2 * pi.
pub const TWO_PI_RAW: i64 = 26986075409;

/// Raw value of pi / 2.
pub const HALF_PI_RAW: i64 = 6746518852;

/// Raw value of pi / 4.
pub const QUARTER_PI_RAW: i64 = 3373259426;

/// Raw value of pi / 180, the radians in one degree.
pub const DEG_RAW: i64 = 74961320;

/// Raw value of ln 2.
pub const LN2_RAW: i64 = 2977044471;

/// Raw value of (ln 2) / 2.
pub const HALF_LN2_RAW: i64 = 1488522235;

/// First coefficient of the arctangent approximation (0.2447).
pub const ATAN_C1_RAW: i64 = 1050978497;

/// Second coefficient of the arctangent approximation (0.0663).
pub const ATAN_C2_RAW: i64 = 284756331;

/// The argument of the sine series: `x` reduced by whole turns into
/// `(-pi, pi]`.
pub open spec fn reduce_turn(x: int) -> int {
    let y0 = x - (TWO_PI_RAW as int) * div_floor(x, TWO_PI_RAW as int);
    if y0 > PI_RAW as int {
        y0 - (TWO_PI_RAW as int)
    } else {
        y0
    }
}

/// Truncated Taylor series of the sine on the reduced argument.
pub open spec fn sin_poly(y: int) -> int {
    let y2 = fx_mul(y, y);
    let y3 = fx_mul(y2, y);
    let y5 = fx_mul(y3, y2);
    let y7 = fx_mul(y5, y2);
    let y9 = fx_mul(y7, y2);
    fx_add(
        fx_sub(
            fx_add(fx_sub(y, fx_div(y3, 6 * (SCALE as int))), fx_div(y5, 120 * (SCALE as int))),
            fx_div(y7, 5040 * (SCALE as int)),
        ),
        fx_div(y9, 362880 * (SCALE as int)),
    )
}

/// The sine: reduction, series, and a clamp into `[-1, 1]`.
pub open spec fn sin_fx(x: int) -> int {
    let s = sin_poly(reduce_turn(x));
    if s < -(SCALE as int) {
        -(SCALE as int)
    } else if s > SCALE as int {
        SCALE as int
    } else {
        s
    }
}

/// The cosine, as the sine shifted a quarter turn.
pub open spec fn cos_fx(x: int) -> int {
    sin_fx(fx_add(x, HALF_PI_RAW as int))
}

/// The tangent, as the quotient of sine and cosine.
pub open spec fn tan_fx(x: int) -> int {
    fx_div(sin_fx(x), cos_fx(x))
}

/// Normalization of a positive raw value downward: halve until below 2.0.
pub open spec fn ln_down(m: int) -> int
    decreases m,
{
    if m >= 2 * (SCALE as int) {
        ln_down(m / 2)
    } else {
        m
    }
}

/// Number of halvings `ln_down` performs.
pub open spec fn ln_downk(m: int) -> nat
    decreases m,
{
    if m >= 2 * (SCALE as int) {
        1 + ln_downk(m / 2)
    } else {
        0
    }
}

/// Normalization of a positive raw value upward: double until at least 1.0.
pub open spec fn ln_up(m: int) -> int
    decreases 2 * (SCALE as int) - m,
{
    if 1 <= m < SCALE as int {
        ln_up(2 * m)
    } else {
        m
    }
}

/// Number of doublings `ln_up` performs.
pub open spec fn ln_upk(m: int) -> nat
    decreases 2 * (SCALE as int) - m,
{
    if 1 <= m < SCALE as int {
        1 + ln_upk(2 * m)
    } else {
        0
    }
}

/// The mantissa of a positive raw value: scaled by a power of two into
/// `[1.0, 2.0)`.
pub open spec fn ln_mantissa(x: int) -> int {
    ln_up(ln_down(x))
}

/// The binary exponent matching `ln_mantissa`.
pub open spec fn ln_exponent(x: int) -> int {
    ln_downk(x) - ln_upk(ln_down(x))
}

/// Truncated series of `ln m` on a mantissa `m` in `[1.0, 2.0)`, via
/// `ln m = 2 artanh((m - 1) / (m + 1))`.
pub open spec fn ln_series(m: int) -> int {
    let t = fx_div(m - (SCALE as int), m + (SCALE as int));
    let t2 = fx_mul(t, t);
    let t3 = fx_mul(t2, t);
    let t5 = fx_mul(t3, t2);
    let t7 = fx_mul(t5, t2);
    fx_mul(
        2 * (SCALE as int),
        fx_add(
            fx_add(fx_add(t, fx_div(t3, 3 * (SCALE as int))), fx_div(t5, 5 * (SCALE as int))),
            fx_div(t7, 7 * (SCALE as int)),
        ),
    )
}

/// The natural logarithm; nonpositive arguments saturate to the least
/// value, the fixed-point stand-in for negative infinity.
pub open spec fn ln_fx(x: int) -> int {
    if x <= 0 {
        i64::MIN as int
    } else {
        fx_add(ln_series(ln_mantissa(x)), ln_exponent(x) * (LN2_RAW as int))
    }
}

/// `n` saturating doublings.
pub open spec fn double_n(v: int, n: nat) -> int
    decreases n,
{
    if n == 0 {
        v
    } else {
        clip(2 * double_n(v, (n - 1) as nat))
    }
}

/// `n` halvings, each rounded toward negative infinity.
pub open spec fn halve_n(v: int, n: nat) -> int
    decreases n,
{
    if n == 0 {
        v
    } else {
        div_floor(halve_n(v, (n - 1) as nat), 2)
    }
}

/// Truncated Taylor series of the exponential on the reduced argument.
pub open spec fn exp_poly(f: int) -> int {
    let f2 = fx_mul(f, f);
    let f3 = fx_mul(f2, f);
    let f4 = fx_mul(f3, f);
    let f5 = fx_mul(f4, f);
    fx_add(
        fx_add(
            fx_add(
                fx_add(fx_add(SCALE as int, f), fx_div(f2, 2 * (SCALE as int))),
                fx_div(f3, 6 * (SCALE as int)),
            ),
            fx_div(f4, 24 * (SCALE as int)),
        ),
        fx_div(f5, 120 * (SCALE as int)),
    )
}

/// The exponential: split off the nearest multiple of `ln 2`, run the
/// series on the remainder, and scale by the matching power of two.
/// Arguments large enough to overflow saturate to the greatest value;
/// arguments small enough to underflow give zero.
pub open spec fn exp_fx(x: int) -> int {
    let k = div_floor(x + (HALF_LN2_RAW as int), LN2_RAW as int);
    if k >= 31 {
        i64::MAX as int
    } else if k <= -64 {
        0
    } else {
        let f = x - k * (LN2_RAW as int);
        if k >= 0 {
            double_n(exp_poly(f), k as nat)
        } else {
            halve_n(exp_poly(f), (-k) as nat)
        }
    }
}

/// `base` raised to `expo`, via `exp(expo * ln base)`; nonpositive bases
/// give zero.
pub open spec fn pow_fx(base: int, expo: int) -> int {
    if base <= 0 {
        0
    } else {
        exp_fx(fx_mul(expo, ln_fx(base)))
    }
}

/// Rational approximation of the arctangent on `[0, 1]`, clamped into
/// `[0, pi/2]`.
pub open spec fn atan_core(a: int) -> int {
    let lin = fx_mul(QUARTER_PI_RAW as int, a);
    let corr = fx_mul(
        fx_mul(a, fx_sub(SCALE as int, a)),
        fx_add(ATAN_C1_RAW as int, fx_mul(ATAN_C2_RAW as int, a)),
    );
    let s = fx_add(lin, corr);
    if s < 0 {
        0
    } else if s > HALF_PI_RAW as int {
        HALF_PI_RAW as int
    } else {
        s
    }
}

/// The arctangent on all arguments: large magnitudes go through the
/// reciprocal identity `atan a = pi/2 - atan(1 / a)`.
pub open spec fn atan_fx(t: int) -> int {
    let a = if t >= 0 {
        t
    } else {
        fx_neg(t)
    };
    let m = if a <= SCALE as int {
        atan_core(a)
    } else {
        fx_sub(HALF_PI_RAW as int, atan_core(fx_div(SCALE as int, a)))
    };
    if t >= 0 {
        m
    } else {
        fx_neg(m)
    }
}

/// The arccosine via `acos y = pi/2 - atan(y / sqrt(1 - y^2))`, with the
/// argument clamped into `[-1, 1]` and the result into `[0, pi]`.
pub open spec fn acos_fx(y: int) -> int {
    let yc = if y < -(SCALE as int) {
        -(SCALE as int)
    } else if y > SCALE as int {
        SCALE as int
    } else {
        y
    };
    let s = fx_sqrt(fx_sub(SCALE as int, fx_mul(yc, yc)));
    if s == 0 {
        if yc >= 0 {
            0
        } else {
            PI_RAW as int
        }
    } else {
        let r = fx_sub(HALF_PI_RAW as int, atan_fx(fx_div(yc, s)));
        if r < 0 {
            0
        } else if r > PI_RAW as int {
            PI_RAW as int
        } else {
            r
        }
    }
}

/// `ln_downk` needs at most `b` halvings when `m < 2.0 * 2^b`.
proof fn lemma_ln_downk_bound(m: int, b: nat)
    requires
        m < 2 * (SCALE as int) * pow2(b),
    ensures
        ln_downk(m) <= b,
    decreases m,
{
    if m >= 2 * (SCALE as int) {
        if b == 0 {
            assert(pow2(0) == 1) by {
                lemma2_to64();
            }
            assert(2 * (SCALE as int) * pow2(b) == 2 * (SCALE as int)) by (nonlinear_arith)
                requires
                    pow2(b) == 1,
            ;
            assert(false);
        }
        assert(pow2(b) == 2 * pow2((b - 1) as nat)) by {
            vstd::arithmetic::power2::lemma_pow2_unfold(b);
        }
        assert(2 * (SCALE as int) * pow2(b) == 4 * (SCALE as int) * pow2((b - 1) as nat))
            by (nonlinear_arith)
            requires
                pow2(b) == 2 * pow2((b - 1) as nat),
        ;
        lemma_fundamental_div_mod(m, 2);
        assert(m / 2 < 2 * (SCALE as int) * pow2((b - 1) as nat)) by (nonlinear_arith)
            requires
                m < 4 * (SCALE as int) * pow2((b - 1) as nat),
                m == 2 * (m / 2) + m % 2,
                0 <= m % 2 < 2,
        ;
        lemma_ln_downk_bound(m / 2, (b - 1) as nat);
    }
}

/// `ln_upk` needs at most `b` doublings when `m * 2^b` reaches 1.0.
proof fn lemma_ln_upk_bound(m: int, b: nat)
    requires
        1 <= m,
        m * pow2(b) >= SCALE as int,
    ensures
        ln_upk(m) <= b,
    decreases 2 * (SCALE as int) - m,
{
    if 1 <= m < SCALE as int {
        if b == 0 {
            assert(pow2(0) == 1) by {
                lemma2_to64();
            }
            assert(m * pow2(b) == m) by (nonlinear_arith)
                requires
                    pow2(b) == 1,
            ;
            assert(false);
        }
        assert(pow2(b) == 2 * pow2((b - 1) as nat)) by {
            vstd::arithmetic::power2::lemma_pow2_unfold(b);
        }
        assert((2 * m) * pow2((b - 1) as nat) == m * pow2(b)) by (nonlinear_arith)
            requires
                pow2(b) == 2 * pow2((b - 1) as nat),
        ;
        lemma_ln_upk_bound(2 * m, (b - 1) as nat);
    }
}

/// `ln_down` lands in `[1, 2.0)` for positive input, staying positive.
proof fn lemma_ln_down_range(m: int)
    requires
        1 <= m,
    ensures
        1 <= ln_down(m) < 2 * (SCALE as int),
    decreases m,
{
    if m >= 2 * (SCALE as int) {
        assert(1 <= m / 2) by {
            lemma_fundamental_div_mod(m, 2);
        }
        lemma_ln_down_range(m / 2);
    }
}

impl Fx {
    /// The sine of an angle in radians, in `[-1, 1]`.
    pub fn sin(self) -> (r: Fx)
        ensures
            r@ == sin_fx(self@),
            -(SCALE as int) <= r@ <= SCALE as int,
    {
        proof {
            lemma_fundamental_div_mod(self.raw as int, TWO_PI_RAW as int);
        }
        let n = crate::fixed::floor_div_i128(self.raw as i128, TWO_PI_RAW as i128);
        let y0w: i128 = (self.raw as i128) - n * (TWO_PI_RAW as i128);
        assert(0 <= y0w < TWO_PI_RAW as int);
        let y0 = y0w as i64;
        let y = if y0 > PI_RAW {
            Fx { raw: y0 - TWO_PI_RAW }
        } else {
            Fx { raw: y0 }
        };
        let y2 = y.mul(y);
        let y3 = y2.mul(y);
        let y5 = y3.mul(y2);
        let y7 = y5.mul(y2);
        let y9 = y7.mul(y2);
        let s = y.sub(y3.div(Fx::from_int(6))).add(y5.div(Fx::from_int(120))).sub(
            y7.div(Fx::from_int(5040)),
        ).add(y9.div(Fx::from_int(362880)));
        s.clamp(Fx { raw: -SCALE }, Fx { raw: SCALE })
    }

    /// The cosine of an angle in radians, in `[-1, 1]`.
    pub fn cos(self) -> (r: Fx)
        ensures
            r@ == cos_fx(self@),
            -(SCALE as int) <= r@ <= SCALE as int,
    {
        self.add(Fx { raw: HALF_PI_RAW }).sin()
    }

    /// The tangent of an angle in radians.
    pub fn tan(self) -> (r: Fx)
        ensures
            r@ == tan_fx(self@),
    {
        self.sin().div(self.cos())
    }

    /// The natural logarithm; nonpositive arguments saturate downward.
    pub fn ln(self) -> (r: Fx)
        ensures
            r@ == ln_fx(self@),
    {
        if self.raw <= 0 {
            return Fx { raw: i64::MIN };
        }
        let ghost m0 = self.raw as int;
        proof {
            lemma2_to64();
            lemma_ln_downk_bound(m0, 31);
        }
        let mut m: i64 = self.raw;
        let mut k: i64 = 0;
        while m >= 2 * SCALE
            invariant
                1 <= m,
                ln_down(m0) == ln_down(m as int),
                k + ln_downk(m as int) == ln_downk(m0),
                0 <= k,
                ln_downk(m0) <= 31,
            decreases m,
        {
            proof {
                lemma_fundamental_div_mod(m as int, 2);
            }
            m = ((m as u64) / 2) as i64;
            k = k + 1;
        }
        proof {
            lemma_ln_down_range(m0);
            lemma_ln_upk_bound(m as int, 32);
            assert((m as int) * pow2(32) >= SCALE as int) by (nonlinear_arith)
                requires
                    m >= 1,
                    pow2(32) == 0x1_0000_0000,
            ;
        }
        let ghost down0 = ln_down(m0);
        while m < SCALE
            invariant
                1 <= m < 2 * SCALE,
                ln_up(down0) == ln_up(m as int),
                down0 == ln_down(m0),
                k == ln_downk(m0) - ln_upk(down0) + ln_upk(m as int),
                ln_downk(m0) <= 31,
                ln_upk(down0) <= 32,
                ln_upk(m as int) <= ln_upk(down0),
            decreases 2 * SCALE - m,
        {
            m = m * 2;
            k = k - 1;
        }
        let t = Fx { raw: m - SCALE }.div(Fx { raw: m + SCALE });
        let t2 = t.mul(t);
        let t3 = t2.mul(t);
        let t5 = t3.mul(t2);
        let t7 = t5.mul(t2);
        let series = Fx::from_int(2).mul(
            t.add(t3.div(Fx::from_int(3))).add(t5.div(Fx::from_int(5))).add(
                t7.div(Fx::from_int(7)),
            ),
        );
        proof {
            crate::fixed::lemma_i64_product_fits(k as int, LN2_RAW as int);
        }
        let whole: i128 = (series.raw as i128) + (k as i128) * (LN2_RAW as i128);
        Fx { raw: crate::fixed::clip_exec(whole) }
    }

    /// The exponential; overflow saturates upward, underflow gives zero.
    pub fn exp(self) -> (r: Fx)
        ensures
            r@ == exp_fx(self@),
    {
        proof {
            lemma_fundamental_div_mod(self.raw as int + HALF_LN2_RAW as int, LN2_RAW as int);
        }
        let kw = crate::fixed::floor_div_i128(
            (self.raw as i128) + (HALF_LN2_RAW as i128),
            LN2_RAW as i128,
        );
        if kw >= 31 {
            return Fx { raw: i64::MAX };
        }
        if kw <= -64 {
            return Fx { raw: 0 };
        }
        let k = kw as i64;
        let fw: i128 = (self.raw as i128) - kw * (LN2_RAW as i128);
        assert(-(LN2_RAW as int) <= fw <= LN2_RAW as int);
        let f = Fx { raw: fw as i64 };
        let f2 = f.mul(f);
        let f3 = f2.mul(f);
        let f4 = f3.mul(f);
        let f5 = f4.mul(f);
        let p = Fx::one().add(f).add(f2.div(Fx::from_int(2))).add(f3.div(Fx::from_int(6))).add(
            f4.div(Fx::from_int(24)),
        ).add(f5.div(Fx::from_int(120)));
        if k >= 0 {
            let mut v = p;
            let mut i: i64 = 0;
            while i < k
                invariant
                    0 <= i <= k < 31,
                    v@ == double_n(exp_poly(self@ - k * (LN2_RAW as int)), i as nat),
                decreases k - i,
            {
                v = v.add(v);
                i = i + 1;
            }
            v
        } else {
            let steps = -k;
            let mut v = p;
            let mut i: i64 = 0;
            while i < steps
                invariant
                    0 <= i <= steps < 64,
                    v@ == halve_n(exp_poly(self@ - k * (LN2_RAW as int)), i as nat),
                decreases steps - i,
            {
                let half = crate::fixed::floor_div_i128(v.raw as i128, 2);
                assert(-(i64::MAX as i128) <= half <= i64::MAX as i128);
                v = Fx { raw: half as i64 };
                i = i + 1;
            }
            v
        }
    }

    /// `self` raised to `expo`; nonpositive bases give zero.
    pub fn powf(self, expo: Fx) -> (r: Fx)
        ensures
            r@ == pow_fx(self@, expo@),
    {
        if self.raw <= 0 {
            Fx { raw: 0 }
        } else {
            expo.mul(self.ln()).exp()
        }
    }

    /// The arctangent, in `[-pi/2, pi/2]`.
    pub fn atan(self) -> (r: Fx)
        ensures
            r@ == atan_fx(self@),
            -(HALF_PI_RAW as int) <= r@ <= HALF_PI_RAW as int,
    {
        let a = self.abs();
        let m = if a.raw <= SCALE {
            atan_core_exec(a)
        } else {
            Fx { raw: HALF_PI_RAW }.sub(atan_core_exec(Fx::one().div(a)))
        };
        if self.raw >= 0 {
            m
        } else {
            m.neg()
        }
    }

    /// The arccosine, in `[0, pi]`.
    pub fn acos(self) -> (r: Fx)
        ensures
            r@ == acos_fx(self@),
            0 <= r@ <= PI_RAW as int,
    {
        let yc = self.clamp(Fx { raw: -SCALE }, Fx { raw: SCALE });
        let s = Fx::one().sub(yc.mul(yc)).sqrt();
        if s.raw == 0 {
            if yc.raw >= 0 {
                Fx { raw: 0 }
            } else {
                Fx { raw: PI_RAW }
            }
        } else {
            let r = Fx { raw: HALF_PI_RAW }.sub(yc.div(s).atan());
            r.clamp(Fx { raw: 0 }, Fx { raw: PI_RAW })
        }
    }
}

impl Fx {
    /// The angle in radians of `self` degrees.
    pub fn to_radians(self) -> (r: Fx)
        ensures
            r@ == fx_mul(self@, DEG_RAW as int),
    {
        self.mul(Fx { raw: DEG_RAW })
    }
}

/// The `[0, 1]` branch of the arctangent approximation.
fn atan_core_exec(a: Fx) -> (r: Fx)
    ensures
        r@ == atan_core(a@),
        0 <= r@ <= HALF_PI_RAW as int,
{
    let lin = Fx { raw: QUARTER_PI_RAW }.mul(a);
    let corr = a.mul(Fx::one().sub(a)).mul(
        Fx { raw: ATAN_C1_RAW }.add(Fx { raw: ATAN_C2_RAW }.mul(a)),
    );
    lin.add(corr).clamp(Fx { raw: 0 }, Fx { raw: HALF_PI_RAW })
}

} // verus!
