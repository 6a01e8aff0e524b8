use vstd::prelude::*;

verus! {

/// A real number held in signed 31.32 fixed point: the value is `raw / 2^32`.
///
/// Every operation is total. A result that does not fit is clamped to the
/// nearest representable value, and a quotient or product is rounded toward
/// zero, so each operation is an exact function on the raw integers.
#[derive(Clone, Copy, Debug, PartialEq, Eq, Structural)]
pub struct Scalar {
    pub raw: i64,
}

/// The raw integer of 1.
pub const ONE_RAW: i64 = 0x1_0000_0000;

/// The raw integer of the tolerance 0.00001, rounded to the nearest step.
pub const EPSILON_RAW: i64 = 42950;

/// `v` clamped to the range of the raw integers.
pub open spec fn sat(v: int) -> i64 {
    if v < i64::MIN {
        i64::MIN
    } else if v > i64::MAX {
        i64::MAX
    } else {
        v as i64
    }
}

/// The quotient of `n` by a positive `d`, rounded toward zero.
pub open spec fn trunc_div(n: int, d: int) -> int
    recommends
        d > 0,
{
    if n >= 0 {
        n / d
    } else {
        -((-n) / d)
    }
}

/// `r` is the integer square root of `n`.
pub open spec fn is_isqrt(n: int, r: int) -> bool {
    0 <= r && r * r <= n && n < (r + 1) * (r + 1)
}

/// The integer square root: the largest `r` with `r * r <= n`.
pub open spec fn isqrt(n: int) -> int {
    choose|r: int| is_isqrt(n, r)
}

/// A number has at most one integer square root.
pub proof fn lemma_isqrt_unique(n: int, r: int, s: int)
    requires
        is_isqrt(n, r),
        is_isqrt(n, s),
    ensures
        r == s,
{
    if r < s {
        assert((r + 1) * (r + 1) <= s * s) by (nonlinear_arith)
            requires
                0 <= r,
                r + 1 <= s,
        ;
    }
    if s < r {
        assert((s + 1) * (s + 1) <= r * r) by (nonlinear_arith)
            requires
                0 <= s,
                s + 1 <= r,
        ;
    }
}

/// A product with one is the other factor, and a product with zero is
/// zero.
pub proof fn lemma_mul_one_and_zero(x: Scalar)
    ensures
        Scalar::one().mul(x) == x,
        x.mul(Scalar::one()) == x,
        Scalar::zero().mul(x) == Scalar::zero(),
        x.mul(Scalar::zero()) == Scalar::zero(),
{
}

/// The scalar of a raw integer, which has to fit.
pub open spec fn spec_raw(raw: int) -> Scalar
    recommends
        i64::MIN <= raw <= i64::MAX,
{
    Scalar { raw: raw as i64 }
}

/// The raw integer of a product, from the raw integers of the factors.
pub open spec fn raw_mul(x: int, y: int) -> int {
    sat(trunc_div(x * y, ONE_RAW as int)) as int
}

/// The raw integer of a quotient, from the raw integers of dividend and
/// divisor.
pub open spec fn raw_div(x: int, y: int) -> int {
    if y == 0 {
        if x > 0 {
            i64::MAX as int
        } else if x < 0 {
            i64::MIN as int
        } else {
            0
        }
    } else if y > 0 {
        sat(trunc_div(x * ONE_RAW, y)) as int
    } else {
        sat(trunc_div(-(x * ONE_RAW), -y)) as int
    }
}

/// The raw integers of a product and of a quotient are those that
/// `raw_mul` and `raw_div` give.
pub proof fn lemma_raw_mul_div(a: Scalar, b: Scalar)
    ensures
        a.mul(b).raw == raw_mul(a.raw as int, b.raw as int),
        a.div(b).raw == raw_div(a.raw as int, b.raw as int),
{
}

/// A product is the scalar whose raw integer is the product of the raw
/// integers over `2^32`, rounded toward zero, where that fits.
pub proof fn lemma_mul_is(a: Scalar, b: Scalar, r: i64)
    requires
        trunc_div(a.raw * b.raw, ONE_RAW as int) == r,
    ensures
        a.mul(b) == (Scalar { raw: r }),
{
}

/// The fraction of two integers, with a positive one below, is the scalar
/// whose raw integer is `2^32` times the one over the other, rounded to the
/// nearest, where that fits.
pub proof fn lemma_from_ratio_is(num: i64, den: i64, r: i64)
    requires
        den > 0,
        round_div(num * ONE_RAW, den as int) == r,
    ensures
        Scalar::spec_from_ratio(num, den) == (Scalar { raw: r }),
{
}

/// The square root of a positive scalar is the scalar whose raw integer is
/// the integer square root of `2^32` times its own.
pub proof fn lemma_sqrt_is(a: Scalar, r: i64)
    requires
        a.raw > 0,
        is_isqrt(a.raw * ONE_RAW, r as int),
    ensures
        a.sqrt() == (Scalar { raw: r }),
{
    lemma_isqrt_unique(a.raw * ONE_RAW, r as int, isqrt(a.raw * ONE_RAW));
}

fn clamp(v: i128) -> (r: i64)
    ensures
        r == sat(v as int),
{
    if v < -0x8000_0000_0000_0000i128 {
        i64::MIN
    } else if v > 0x7fff_ffff_ffff_ffffi128 {
        i64::MAX
    } else {
        v as i64
    }
}

fn quot(n: i128, d: i128) -> (r: i128)
    requires
        d > 0,
        n > i128::MIN,
    ensures
        r == trunc_div(n as int, d as int),
{
    if n >= 0 {
        n / d
    } else {
        -((-n) / d)
    }
}

/// The quotient of `n` by a positive `d`, rounded to the nearest integer,
/// a half away from zero.
pub open spec fn round_div(n: int, d: int) -> int
    recommends
        d > 0,
{
    if n >= 0 {
        (2 * n + d) / (2 * d)
    } else {
        -((2 * (-n) + d) / (2 * d))
    }
}

fn round_quot(n: i128, d: i128) -> (r: i128)
    requires
        0 < d <= 0x8000_0000_0000_0000,
        -0x8000_0000_0000_0000_0000_0000 <= n <= 0x8000_0000_0000_0000_0000_0000,
    ensures
        r == round_div(n as int, d as int),
{
    if n >= 0 {
        (2 * n + d) / (2 * d)
    } else {
        -((2 * (-n) + d) / (2 * d))
    }
}

fn isqrt_u128(n: u128) -> (r: u128)
    requires
        n < 0x1_0000_0000_0000_0000_0000_0000,
    ensures
        r == isqrt(n as int),
        is_isqrt(n as int, r as int),
        r < 0x1_0000_0000_0000,
{
    let mut lo: u128 = 0;
    let mut hi: u128 = 0x1_0000_0000_0000;
    assert(hi * hi == 0x1_0000_0000_0000_0000_0000_0000) by (nonlinear_arith)
        requires
            hi == 0x1_0000_0000_0000,
    ;
    while hi - lo > 1
        invariant
            lo < hi <= 0x1_0000_0000_0000,
            lo * lo <= n,
            n < hi * hi,
        decreases hi - lo,
    {
        let mid: u128 = lo + (hi - lo) / 2;
        assert(mid * mid < 0x1_0000_0000_0000_0000_0000_0000) by (nonlinear_arith)
            requires
                mid < 0x1_0000_0000_0000,
        ;
        if mid * mid <= n {
            lo = mid;
        } else {
            hi = mid;
        }
    }
    proof {
        assert(is_isqrt(n as int, lo as int));
        lemma_isqrt_unique(n as int, lo as int, isqrt(n as int));
    }
    lo
}

impl Scalar {
    pub open spec fn spec_from_raw(raw: i64) -> Scalar {
        Scalar { raw }
    }

    /// The scalar with the given raw integer.
    #[verifier::when_used_as_spec(spec_from_raw)]
    pub fn from_raw(raw: i64) -> (r: Scalar)
        ensures
            r == Scalar::spec_from_raw(raw),
    {
        Scalar { raw }
    }

    pub open spec fn spec_zero() -> Scalar {
        Scalar { raw: 0 }
    }

    #[verifier::when_used_as_spec(spec_zero)]
    pub fn zero() -> (r: Scalar)
        ensures
            r == Scalar::spec_zero(),
    {
        Scalar { raw: 0 }
    }

    pub open spec fn spec_one() -> Scalar {
        Scalar { raw: ONE_RAW }
    }

    #[verifier::when_used_as_spec(spec_one)]
    pub fn one() -> (r: Scalar)
        ensures
            r == Scalar::spec_one(),
    {
        Scalar { raw: ONE_RAW }
    }

    pub open spec fn spec_epsilon() -> Scalar {
        Scalar { raw: EPSILON_RAW }
    }

    /// The tolerance of approximate equality, which is also the distance by
    /// which a shading point is lifted off its surface.
    #[verifier::when_used_as_spec(spec_epsilon)]
    pub fn epsilon() -> (r: Scalar)
        ensures
            r == Scalar::spec_epsilon(),
    {
        Scalar { raw: EPSILON_RAW }
    }

    pub open spec fn spec_from_int(n: i64) -> Scalar {
        Scalar { raw: sat(n * ONE_RAW) }
    }

    /// The integer `n`, clamped to the representable range.
    #[verifier::when_used_as_spec(spec_from_int)]
    pub fn from_int(n: i64) -> (r: Scalar)
        ensures
            r == Scalar::spec_from_int(n),
    {
        Scalar { raw: clamp((n as i128) * 0x1_0000_0000i128) }
    }

    pub open spec fn spec_from_usize(n: usize) -> Scalar {
        Scalar { raw: sat(n * ONE_RAW) }
    }

    /// The count `n`, clamped to the representable range.
    #[verifier::when_used_as_spec(spec_from_usize)]
    pub fn from_usize(n: usize) -> (r: Scalar)
        ensures
            r == Scalar::spec_from_usize(n),
    {
        if n >= 0x8000_0000 {
            Scalar { raw: i64::MAX }
        } else {
            Scalar { raw: (n as i64) * 0x1_0000_0000i64 }
        }
    }

    /// The whole part of the value as an index: zero for a negative value.
    pub open spec fn spec_to_index(self) -> usize {
        if self.raw < 0 {
            0usize
        } else {
            (self.raw as int / ONE_RAW as int) as usize
        }
    }

    #[verifier::when_used_as_spec(spec_to_index)]
    pub fn to_index(self) -> (r: usize)
        ensures
            r == self.spec_to_index(),
            r < 0x8000_0000,
    {
        if self.raw < 0 {
            0
        } else {
            (self.raw / 0x1_0000_0000i64) as usize
        }
    }

    pub open spec fn spec_from_ratio(num: i64, den: i64) -> Scalar {
        if den == 0 {
            if num > 0 {
                Scalar { raw: i64::MAX }
            } else if num < 0 {
                Scalar { raw: i64::MIN }
            } else {
                Scalar { raw: 0 }
            }
        } else if den > 0 {
            Scalar { raw: sat(round_div(num * ONE_RAW, den as int)) }
        } else {
            Scalar { raw: sat(round_div(-(num * ONE_RAW), -(den as int))) }
        }
    }

    /// The fraction `num / den`, rounded to the nearest step, a half away
    /// from zero. A zero `den` gives the largest value of the sign of
    /// `num`, and zero for zero.
    #[verifier::when_used_as_spec(spec_from_ratio)]
    pub fn from_ratio(num: i64, den: i64) -> (r: Scalar)
        ensures
            r == Scalar::spec_from_ratio(num, den),
    {
        let n: i128 = (num as i128) * 0x1_0000_0000i128;
        let d: i128 = den as i128;
        if d == 0 {
            if num > 0 {
                Scalar { raw: i64::MAX }
            } else if num < 0 {
                Scalar { raw: i64::MIN }
            } else {
                Scalar { raw: 0 }
            }
        } else if d > 0 {
            Scalar { raw: clamp(round_quot(n, d)) }
        } else {
            Scalar { raw: clamp(round_quot(-n, -d)) }
        }
    }

    pub open spec fn spec_add(self, o: Scalar) -> Scalar {
        Scalar { raw: sat(self.raw + o.raw) }
    }

    #[verifier::when_used_as_spec(spec_add)]
    pub fn add(self, o: Scalar) -> (r: Scalar)
        ensures
            r == self.spec_add(o),
    {
        Scalar { raw: clamp(self.raw as i128 + o.raw as i128) }
    }

    pub open spec fn spec_sub(self, o: Scalar) -> Scalar {
        Scalar { raw: sat(self.raw - o.raw) }
    }

    #[verifier::when_used_as_spec(spec_sub)]
    pub fn sub(self, o: Scalar) -> (r: Scalar)
        ensures
            r == self.spec_sub(o),
    {
        Scalar { raw: clamp(self.raw as i128 - o.raw as i128) }
    }

    pub open spec fn spec_neg(self) -> Scalar {
        Scalar { raw: sat(-self.raw) }
    }

    #[verifier::when_used_as_spec(spec_neg)]
    pub fn neg(self) -> (r: Scalar)
        ensures
            r == self.spec_neg(),
    {
        Scalar { raw: clamp(-(self.raw as i128)) }
    }

    pub open spec fn spec_abs(self) -> Scalar {
        if self.raw < 0 {
            self.spec_neg()
        } else {
            self
        }
    }

    #[verifier::when_used_as_spec(spec_abs)]
    pub fn abs(self) -> (r: Scalar)
        ensures
            r == self.spec_abs(),
    {
        if self.raw < 0 {
            self.neg()
        } else {
            self
        }
    }

    pub open spec fn spec_mul(self, o: Scalar) -> Scalar {
        Scalar { raw: sat(trunc_div(self.raw * o.raw, ONE_RAW as int)) }
    }

    /// The product, rounded toward zero.
    #[verifier::when_used_as_spec(spec_mul)]
    pub fn mul(self, o: Scalar) -> (r: Scalar)
        ensures
            r == self.spec_mul(o),
    {
        let a: i128 = self.raw as i128;
        let b: i128 = o.raw as i128;
        assert(-0x4000_0000_0000_0000_0000_0000_0000_0000 <= a * b
            <= 0x4000_0000_0000_0000_0000_0000_0000_0000) by (nonlinear_arith)
            requires
                -0x8000_0000_0000_0000 <= a <= 0x7fff_ffff_ffff_ffff,
                -0x8000_0000_0000_0000 <= b <= 0x7fff_ffff_ffff_ffff,
        ;
        Scalar { raw: clamp(quot(a * b, 0x1_0000_0000i128)) }
    }

    pub open spec fn spec_div(self, o: Scalar) -> Scalar {
        if o.raw == 0 {
            if self.raw > 0 {
                Scalar { raw: i64::MAX }
            } else if self.raw < 0 {
                Scalar { raw: i64::MIN }
            } else {
                Scalar { raw: 0 }
            }
        } else if o.raw > 0 {
            Scalar { raw: sat(trunc_div(self.raw * ONE_RAW, o.raw as int)) }
        } else {
            Scalar { raw: sat(trunc_div(-(self.raw * ONE_RAW), -(o.raw as int))) }
        }
    }

    /// The quotient, rounded toward zero. A division by zero gives the
    /// largest value of the dividend's sign, and zero for zero.
    #[verifier::when_used_as_spec(spec_div)]
    pub fn div(self, o: Scalar) -> (r: Scalar)
        ensures
            r == self.spec_div(o),
    {
        let n: i128 = (self.raw as i128) * 0x1_0000_0000i128;
        let d: i128 = o.raw as i128;
        if d == 0 {
            if self.raw > 0 {
                Scalar { raw: i64::MAX }
            } else if self.raw < 0 {
                Scalar { raw: i64::MIN }
            } else {
                Scalar { raw: 0 }
            }
        } else if d > 0 {
            Scalar { raw: clamp(quot(n, d)) }
        } else {
            Scalar { raw: clamp(quot(-n, -d)) }
        }
    }

    pub open spec fn spec_div_int(self, k: i64) -> Scalar
        recommends
            k > 0,
    {
        Scalar { raw: sat(trunc_div(self.raw as int, k as int)) }
    }

    /// The quotient by a positive integer, rounded toward zero.
    #[verifier::when_used_as_spec(spec_div_int)]
    pub fn div_int(self, k: i64) -> (r: Scalar)
        requires
            k > 0,
        ensures
            r == self.spec_div_int(k),
    {
        Scalar { raw: clamp(quot(self.raw as i128, k as i128)) }
    }

    pub open spec fn spec_sqrt(self) -> Scalar {
        if self.raw <= 0 {
            Scalar { raw: 0 }
        } else {
            Scalar { raw: isqrt(self.raw * ONE_RAW) as i64 }
        }
    }

    /// The square root, rounded down to the nearest step; zero for a value
    /// that is not positive.
    #[verifier::when_used_as_spec(spec_sqrt)]
    pub fn sqrt(self) -> (r: Scalar)
        ensures
            r == self.spec_sqrt(),
            self.raw > 0 ==> is_isqrt(self.raw * ONE_RAW, r.raw as int),
    {
        if self.raw <= 0 {
            Scalar { raw: 0 }
        } else {
            let n: u128 = (self.raw as u128) * 0x1_0000_0000u128;
            let root: u128 = isqrt_u128(n);
            Scalar { raw: root as i64 }
        }
    }

    /// The largest integer that is not above the value.
    pub open spec fn spec_floor_int(self) -> int {
        self.raw as int / ONE_RAW as int
    }

    pub fn floor_int(self) -> (r: i64)
        ensures
            r == self.spec_floor_int(),
            -0x8000_0000 <= r < 0x8000_0000,
    {
        if self.raw >= 0 {
            self.raw / 0x1_0000_0000i64
        } else {
            let up: i128 = (-(self.raw as i128) + 0xffff_ffffi128) / 0x1_0000_0000i128;
            (-up) as i64
        }
    }

    pub open spec fn spec_floor(self) -> Scalar {
        Scalar { raw: (self.spec_floor_int() * ONE_RAW) as i64 }
    }

    /// The value rounded down to an integer.
    #[verifier::when_used_as_spec(spec_floor)]
    pub fn floor(self) -> (r: Scalar)
        ensures
            r == self.spec_floor(),
            r.raw <= self.raw < r.raw + ONE_RAW,
    {
        let whole: i64 = self.floor_int();
        Scalar { raw: whole * 0x1_0000_0000i64 }
    }

    /// Whether the value rounded down to an integer is even.
    pub open spec fn spec_floor_is_even(self) -> bool {
        self.spec_floor_int() % 2 == 0
    }

    #[verifier::when_used_as_spec(spec_floor_is_even)]
    pub fn floor_is_even(self) -> (r: bool)
        ensures
            r == self.spec_floor_is_even(),
    {
        let whole: i64 = self.floor_int();
        if whole >= 0 {
            whole % 2 == 0
        } else {
            (-whole) % 2 == 0
        }
    }

    pub open spec fn spec_lt(self, o: Scalar) -> bool {
        self.raw < o.raw
    }

    #[verifier::when_used_as_spec(spec_lt)]
    pub fn lt(self, o: Scalar) -> (r: bool)
        ensures
            r == self.spec_lt(o),
    {
        self.raw < o.raw
    }

    pub open spec fn spec_le(self, o: Scalar) -> bool {
        self.raw <= o.raw
    }

    #[verifier::when_used_as_spec(spec_le)]
    pub fn le(self, o: Scalar) -> (r: bool)
        ensures
            r == self.spec_le(o),
    {
        self.raw <= o.raw
    }

    pub open spec fn spec_is_zero(self) -> bool {
        self.raw == 0
    }

    #[verifier::when_used_as_spec(spec_is_zero)]
    pub fn is_zero(self) -> (r: bool)
        ensures
            r == self.spec_is_zero(),
    {
        self.raw == 0
    }

    pub open spec fn spec_is_negative(self) -> bool {
        self.raw < 0
    }

    #[verifier::when_used_as_spec(spec_is_negative)]
    pub fn is_negative(self) -> (r: bool)
        ensures
            r == self.spec_is_negative(),
    {
        self.raw < 0
    }

    /// Whether two values differ by less than the tolerance.
    pub open spec fn spec_approx_eq(self, o: Scalar) -> bool {
        -(EPSILON_RAW as int) < self.raw - o.raw < EPSILON_RAW as int
    }

    #[verifier::when_used_as_spec(spec_approx_eq)]
    pub fn approx_eq(self, o: Scalar) -> (r: bool)
        ensures
            r == self.spec_approx_eq(o),
    {
        let d: i128 = self.raw as i128 - o.raw as i128;
        -(EPSILON_RAW as i128) < d && d < EPSILON_RAW as i128
    }
}

} // verus!
