use vstd::prelude::*;
use crate::scalar::Scalar;

verus! {

/// The raw integers of π, 2π and π/2, each rounded to the nearest step.
pub const PI_RAW: i64 = 13493037705;

pub const TWO_PI_RAW: i64 = 26986075409;

pub const HALF_PI_RAW: i64 = 6746518852;

/// The raw integer of the natural logarithm of 2.
pub const LN2_RAW: i64 = 2977044472;

/// The raw integers of 3/4 and 3/2, the bounds between which a logarithm's
/// argument is brought by halving or doubling.
pub const LOW_RAW: i64 = 0xC000_0000;

pub const HIGH_RAW: i64 = 0x1_8000_0000;

/// An angle's raw integer, brought into `[-π/2, π/2]` so that the sine stays
/// the same: first the remainder by a full turn, then a reflection about π/2
/// or a step back by a full turn.
pub open spec fn fold_angle(raw: i64) -> i64 {
    let m = raw as int % TWO_PI_RAW as int;
    if m <= HALF_PI_RAW {
        m as i64
    } else if m <= PI_RAW + HALF_PI_RAW {
        (PI_RAW - m) as i64
    } else {
        (m - TWO_PI_RAW) as i64
    }
}

fn fold(raw: i64) -> (r: i64)
    ensures
        r == fold_angle(raw),
        -HALF_PI_RAW <= r <= HALF_PI_RAW,
{
    let m: i64 = if raw >= 0 {
        raw % 26986075409i64
    } else {
        let back: i128 = (-(raw as i128)) % 26986075409i128;
        if back == 0 {
            0
        } else {
            (26986075409i128 - back) as i64
        }
    };
    assert(m == raw as int % TWO_PI_RAW as int);
    if m <= 6746518852i64 {
        m
    } else if m <= 13493037705i64 + 6746518852i64 {
        13493037705i64 - m
    } else {
        m - 26986075409i64
    }
}

/// One step of the sine's series in nested form: `1 - x2 * p / k`.
pub open spec fn sine_step(x2: Scalar, p: Scalar, k: i64) -> Scalar {
    Scalar::one().sub(x2.mul(p).spec_div_int(k))
}

/// The sine's series up to the term of degree 17, in nested form.
pub open spec fn sine_series(x: Scalar) -> Scalar {
    let x2 = x.mul(x);
    let p8 = sine_step(x2, Scalar::one(), 272);
    let p7 = sine_step(x2, p8, 210);
    let p6 = sine_step(x2, p7, 156);
    let p5 = sine_step(x2, p6, 110);
    let p4 = sine_step(x2, p5, 72);
    let p3 = sine_step(x2, p4, 42);
    let p2 = sine_step(x2, p3, 20);
    let p1 = sine_step(x2, p2, 6);
    x.mul(p1)
}

fn sine_step_of(x2: Scalar, p: Scalar, k: i64) -> (r: Scalar)
    requires
        k > 0,
    ensures
        r == sine_step(x2, p, k),
{
    Scalar::one().sub(x2.mul(p).div_int(k))
}

/// One step of the exponential's series in nested form: `1 + x * p / k`.
pub open spec fn exp_step(x: Scalar, p: Scalar, k: i64) -> Scalar {
    Scalar::one().add(x.mul(p).spec_div_int(k))
}

/// The exponential's series up to the term of degree 14, in nested form.
pub open spec fn exp_series(x: Scalar) -> Scalar {
    let p14 = exp_step(x, Scalar::one(), 14);
    let p13 = exp_step(x, p14, 13);
    let p12 = exp_step(x, p13, 12);
    let p11 = exp_step(x, p12, 11);
    let p10 = exp_step(x, p11, 10);
    let p9 = exp_step(x, p10, 9);
    let p8 = exp_step(x, p9, 8);
    let p7 = exp_step(x, p8, 7);
    let p6 = exp_step(x, p7, 6);
    let p5 = exp_step(x, p6, 5);
    let p4 = exp_step(x, p5, 4);
    let p3 = exp_step(x, p4, 3);
    let p2 = exp_step(x, p3, 2);
    exp_step(x, p2, 1)
}

fn exp_step_of(x: Scalar, p: Scalar, k: i64) -> (r: Scalar)
    requires
        k > 0,
    ensures
        r == exp_step(x, p, k),
{
    Scalar::one().add(x.mul(p).div_int(k))
}

fn exp_series_of(x: Scalar) -> (r: Scalar)
    ensures
        r == exp_series(x),
{
    let p14 = exp_step_of(x, Scalar::one(), 14);
    let p13 = exp_step_of(x, p14, 13);
    let p12 = exp_step_of(x, p13, 12);
    let p11 = exp_step_of(x, p12, 11);
    let p10 = exp_step_of(x, p11, 10);
    let p9 = exp_step_of(x, p10, 9);
    let p8 = exp_step_of(x, p9, 8);
    let p7 = exp_step_of(x, p8, 7);
    let p6 = exp_step_of(x, p7, 6);
    let p5 = exp_step_of(x, p6, 5);
    let p4 = exp_step_of(x, p5, 4);
    let p3 = exp_step_of(x, p4, 3);
    let p2 = exp_step_of(x, p3, 2);
    exp_step_of(x, p2, 1)
}

/// `x` doubled `k` times, or halved `-k` times for a negative `k`.
pub open spec fn scale_pow2(x: Scalar, k: int) -> Scalar
    decreases
        (if k >= 0 {
            k
        } else {
            -k
        }),
{
    if k > 0 {
        scale_pow2(x.add(x), k - 1)
    } else if k < 0 {
        scale_pow2(x.spec_div_int(2), k + 1)
    } else {
        x
    }
}

fn scale_pow2_of(x: Scalar, k: i64) -> (r: Scalar)
    requires
        -64 <= k <= 64,
    ensures
        r == scale_pow2(x, k as int),
    decreases
        (if k >= 0 {
            k as int
        } else {
            -k
        }),
{
    if k > 0 {
        scale_pow2_of(x.add(x), k - 1)
    } else if k < 0 {
        scale_pow2_of(x.div_int(2), k + 1)
    } else {
        x
    }
}

/// A positive raw integer halved while it is at least 3/2, at most `fuel`
/// times, with the count of the halvings added to `k`.
pub open spec fn halved(raw: i64, k: int, fuel: nat) -> (i64, int)
    decreases fuel,
{
    if fuel > 0 && raw >= HIGH_RAW {
        halved((raw / 2) as i64, k + 1, (fuel - 1) as nat)
    } else {
        (raw, k)
    }
}

/// A positive raw integer doubled while it is under 3/4, at most `fuel`
/// times, with the count of the doublings taken from `k`.
pub open spec fn doubled(raw: i64, k: int, fuel: nat) -> (i64, int)
    decreases fuel,
{
    if fuel > 0 && 0 < raw < LOW_RAW {
        doubled((raw * 2) as i64, k - 1, (fuel - 1) as nat)
    } else {
        (raw, k)
    }
}

fn halved_of(raw: i64, k: i64, fuel: u32) -> (r: (i64, i64))
    requires
        raw > 0,
        -64 <= k,
        k + fuel <= 64,
    ensures
        (r.0, r.1 as int) == halved(raw, k as int, fuel as nat),
        r.0 > 0,
        k <= r.1 <= k + fuel,
    decreases fuel,
{
    if fuel > 0 && raw >= 0x1_8000_0000i64 {
        halved_of(raw / 2, k + 1, fuel - 1)
    } else {
        (raw, k)
    }
}

fn doubled_of(raw: i64, k: i64, fuel: u32) -> (r: (i64, i64))
    requires
        raw > 0,
        k <= 64,
        k - fuel >= -64,
    ensures
        (r.0, r.1 as int) == doubled(raw, k as int, fuel as nat),
        r.0 > 0,
        k - fuel <= r.1 <= k,
    decreases fuel,
{
    if fuel > 0 && raw < 0xC000_0000i64 {
        doubled_of(raw * 2, k - 1, fuel - 1)
    } else {
        (raw, k)
    }
}

/// One step of the logarithm's series in nested form: `1/k + z2 * q`.
pub open spec fn log_step(z2: Scalar, q: Scalar, k: i64) -> Scalar {
    Scalar::one().spec_div_int(k).add(z2.mul(q))
}

/// The series of `ln((1 + z) / (1 - z))`, up to the term of degree 19.
pub open spec fn log_series(z: Scalar) -> Scalar {
    let z2 = z.mul(z);
    let q9 = Scalar::one().spec_div_int(19);
    let q8 = log_step(z2, q9, 17);
    let q7 = log_step(z2, q8, 15);
    let q6 = log_step(z2, q7, 13);
    let q5 = log_step(z2, q6, 11);
    let q4 = log_step(z2, q5, 9);
    let q3 = log_step(z2, q4, 7);
    let q2 = log_step(z2, q3, 5);
    let q1 = log_step(z2, q2, 3);
    let q0 = log_step(z2, q1, 1);
    let half = z.mul(q0);
    half.add(half)
}

fn log_step_of(z2: Scalar, q: Scalar, k: i64) -> (r: Scalar)
    requires
        k > 0,
    ensures
        r == log_step(z2, q, k),
{
    Scalar::one().div_int(k).add(z2.mul(q))
}

fn log_series_of(z: Scalar) -> (r: Scalar)
    ensures
        r == log_series(z),
{
    let z2 = z.mul(z);
    let q9 = Scalar::one().div_int(19);
    let q8 = log_step_of(z2, q9, 17);
    let q7 = log_step_of(z2, q8, 15);
    let q6 = log_step_of(z2, q7, 13);
    let q5 = log_step_of(z2, q6, 11);
    let q4 = log_step_of(z2, q5, 9);
    let q3 = log_step_of(z2, q4, 7);
    let q2 = log_step_of(z2, q3, 5);
    let q1 = log_step_of(z2, q2, 3);
    let q0 = log_step_of(z2, q1, 1);
    let half = z.mul(q0);
    half.add(half)
}

/// One step of the sine's series, in raw integers.
pub open spec fn raw_sine_step(x2: int, p: int, k: int) -> int {
    crate::scalar::sat(
        0x1_0000_0000 - crate::scalar::sat(
            crate::scalar::trunc_div(crate::scalar::raw_mul(x2, p), k),
        ),
    ) as int
}

/// An angle folded into `[-π/2, π/2]`, in raw integers.
pub open spec fn raw_fold(angle: int) -> int {
    fold_angle(angle as i64) as int
}

/// The sine of an angle, from its raw integer to the sine's.
pub open spec fn raw_sin(angle: int) -> int {
    let x = raw_fold(angle);
    let x2 = crate::scalar::raw_mul(x, x);
    let p8 = raw_sine_step(x2, 0x1_0000_0000, 272);
    let p7 = raw_sine_step(x2, p8, 210);
    let p6 = raw_sine_step(x2, p7, 156);
    let p5 = raw_sine_step(x2, p6, 110);
    let p4 = raw_sine_step(x2, p5, 72);
    let p3 = raw_sine_step(x2, p4, 42);
    let p2 = raw_sine_step(x2, p3, 20);
    let p1 = raw_sine_step(x2, p2, 6);
    crate::scalar::raw_mul(x, p1)
}

/// The cosine of an angle, from its raw integer to the cosine's.
pub open spec fn raw_cos(angle: int) -> int {
    raw_sin(crate::scalar::sat(angle + HALF_PI_RAW) as int)
}

/// The sine and the cosine of a scalar have the raw integers that
/// `raw_sin` and `raw_cos` give.
pub proof fn lemma_raw_sin_cos(x: Scalar)
    ensures
        x.spec_sin().raw == raw_sin(x.raw as int),
        x.spec_cos().raw == raw_cos(x.raw as int),
{
    reveal(Scalar::spec_sin);
}

impl Scalar {
    pub open spec fn spec_pi() -> Scalar {
        Scalar { raw: PI_RAW }
    }

    #[verifier::when_used_as_spec(spec_pi)]
    pub fn pi() -> (r: Scalar)
        ensures
            r == Scalar::spec_pi(),
    {
        Scalar { raw: PI_RAW }
    }

    #[verifier::opaque]
    pub open spec fn spec_sin(self) -> Scalar {
        sine_series(Scalar { raw: fold_angle(self.raw) })
    }

    /// The sine of an angle in radians: the angle is folded into
    /// `[-π/2, π/2]` and the series is summed there.
    #[verifier::when_used_as_spec(spec_sin)]
    pub fn sin(self) -> (r: Scalar)
        ensures
            r == self.spec_sin(),
    {
        reveal(Scalar::spec_sin);
        let x = Scalar { raw: fold(self.raw) };
        let x2 = x.mul(x);
        let p8 = sine_step_of(x2, Scalar::one(), 272);
        let p7 = sine_step_of(x2, p8, 210);
        let p6 = sine_step_of(x2, p7, 156);
        let p5 = sine_step_of(x2, p6, 110);
        let p4 = sine_step_of(x2, p5, 72);
        let p3 = sine_step_of(x2, p4, 42);
        let p2 = sine_step_of(x2, p3, 20);
        let p1 = sine_step_of(x2, p2, 6);
        x.mul(p1)
    }

    pub open spec fn spec_cos(self) -> Scalar {
        self.add(Scalar { raw: HALF_PI_RAW }).spec_sin()
    }

    /// The cosine of an angle in radians, as the sine a quarter turn on.
    #[verifier::when_used_as_spec(spec_cos)]
    pub fn cos(self) -> (r: Scalar)
        ensures
            r == self.spec_cos(),
    {
        self.add(Scalar { raw: HALF_PI_RAW }).sin()
    }

    pub open spec fn spec_tan(self) -> Scalar {
        self.spec_sin().div(self.spec_cos())
    }

    /// The tangent of an angle in radians, as sine over cosine.
    #[verifier::when_used_as_spec(spec_tan)]
    pub fn tan(self) -> (r: Scalar)
        ensures
            r == self.spec_tan(),
    {
        self.sin().div(self.cos())
    }

    #[verifier::opaque]
    pub open spec fn spec_ln(self) -> Scalar {
        if self.raw <= 0 {
            Scalar { raw: i64::MIN }
        } else {
            let down = halved(self.raw, 0, 64);
            let up = doubled(down.0, down.1, 64);
            let m = Scalar { raw: up.0 };
            let z = m.sub(Scalar::one()).div(m.add(Scalar::one()));
            log_series(z).add(Scalar { raw: LN2_RAW }.mul(Scalar::spec_from_int(up.1 as i64)))
        }
    }

    /// The natural logarithm. The argument is brought between 3/4 and 3/2 by
    /// a power of two, the series is summed there, and that power's
    /// logarithm is added. A value that is not positive gives the least
    /// scalar.
    #[verifier::when_used_as_spec(spec_ln)]
    pub fn ln(self) -> (r: Scalar)
        ensures
            r == self.spec_ln(),
    {
        reveal(Scalar::spec_ln);
        if self.raw <= 0 {
            Scalar { raw: i64::MIN }
        } else {
            let down = halved_of(self.raw, 0, 64);
            let up = doubled_of(down.0, down.1, 64);
            let m = Scalar { raw: up.0 };
            let z = m.sub(Scalar::one()).div(m.add(Scalar::one()));
            log_series_of(z).add(Scalar { raw: LN2_RAW }.mul(Scalar::from_int(up.1)))
        }
    }

    #[verifier::opaque]
    pub open spec fn spec_exp(self) -> Scalar {
        if self.raw > 22 * 0x1_0000_0000 {
            Scalar { raw: i64::MAX }
        } else if self.raw < -23 * 0x1_0000_0000 {
            Scalar { raw: 0 }
        } else {
            let k = self.div(Scalar { raw: LN2_RAW }).spec_floor_int();
            let rest = self.sub(Scalar { raw: LN2_RAW }.mul(Scalar::spec_from_int(k as i64)));
            scale_pow2(exp_series(rest), k)
        }
    }

    /// The exponential. The argument is split into a multiple of `ln 2` and
    /// a rest, the series is summed at the rest, and the sum is doubled or
    /// halved as many times as the multiple says. Above 22 the result is the
    /// largest scalar, below -23 it is zero.
    #[verifier::when_used_as_spec(spec_exp)]
    pub fn exp(self) -> (r: Scalar)
        ensures
            r == self.spec_exp(),
    {
        reveal(Scalar::spec_exp);
        if self.raw > 22 * 0x1_0000_0000i64 {
            Scalar { raw: i64::MAX }
        } else if self.raw < -23 * 0x1_0000_0000i64 {
            Scalar { raw: 0 }
        } else {
            let k: i64 = self.div(Scalar { raw: LN2_RAW }).floor_int();
            assert(-64 <= k <= 64) by {
                crate::analysis::lemma_exp_steps(self);
            }
            let rest = self.sub(Scalar { raw: LN2_RAW }.mul(Scalar::from_int(k)));
            scale_pow2_of(exp_series_of(rest), k)
        }
    }

    pub open spec fn spec_powf(self, e: Scalar) -> Scalar {
        if self.raw <= 0 {
            Scalar { raw: 0 }
        } else {
            e.mul(self.spec_ln()).spec_exp()
        }
    }

    /// The power of a positive base, as the exponential of the exponent
    /// times the base's logarithm; zero for a base that is not positive.
    #[verifier::when_used_as_spec(spec_powf)]
    pub fn powf(self, e: Scalar) -> (r: Scalar)
        ensures
            r == self.spec_powf(e),
    {
        if self.raw <= 0 {
            Scalar { raw: 0 }
        } else {
            e.mul(self.ln()).exp()
        }
    }
}

/// Between -23 and 22 an argument holds fewer than 64 multiples of `ln 2`.
pub proof fn lemma_exp_steps(x: Scalar)
    requires
        -23 * 0x1_0000_0000 <= x.raw <= 22 * 0x1_0000_0000,
    ensures
        -64 <= x.div(Scalar { raw: LN2_RAW }).spec_floor_int() <= 64,
{
    let n = x.raw * 0x1_0000_0000;
    let d = LN2_RAW as int;
    if n >= 0 {
        assert(n / d <= 64 * 0x1_0000_0000) by (nonlinear_arith)
            requires
                0 <= n <= 22 * 0x1_0000_0000 * 0x1_0000_0000,
                d == 2977044472,
        ;
    } else {
        assert((-n) / d <= 64 * 0x1_0000_0000) by (nonlinear_arith)
            requires
                0 <= -n <= 23 * 0x1_0000_0000 * 0x1_0000_0000,
                d == 2977044472,
        ;
        assert((-n) / d >= 0) by (nonlinear_arith)
            requires
                0 <= -n,
                d == 2977044472,
        ;
    }
}

} // verus!
