use vstd::prelude::*;
use crate::matrices::Row;
use crate::scalar::{is_isqrt, isqrt, lemma_isqrt_unique, lemma_mul_one_and_zero, Scalar, ONE_RAW};
use crate::tuples::Vector;

verus! {

/// The largest raw size of a component for which the length of a vector is
/// known to be found without clamping: 16384.
pub const COMPONENT_LIMIT: i64 = 0x4000_0000_0000;

/// The least raw length from which a vector is known to be brought to
/// length 1 within the stated error: one sixteenth.
pub const LENGTH_FLOOR: i64 = 0x1000_0000;

/// How far, in raw steps, the length of a vector brought to length 1 may
/// lie under 1 and over 1.
pub const UNIT_SLACK_UNDER: i64 = 8;

pub const UNIT_SLACK_OVER: i64 = 4096;

/// The size of a raw integer.
pub open spec fn size(x: int) -> int {
    if x < 0 {
        -x
    } else {
        x
    }
}

/// Every number that is not negative has an integer square root.
pub proof fn lemma_isqrt_exists(n: int)
    requires
        0 <= n,
    ensures
        is_isqrt(n, isqrt(n)),
    decreases n,
{
    if n == 0 {
        assert(is_isqrt(0, 0));
    } else {
        lemma_isqrt_exists(n - 1);
        let r = isqrt(n - 1);
        if (r + 1) * (r + 1) <= n {
            assert((r + 2) * (r + 2) > n) by (nonlinear_arith)
                requires
                    0 <= r,
                    n - 1 < (r + 1) * (r + 1),
            ;
            assert(is_isqrt(n, r + 1));
        } else {
            assert(is_isqrt(n, r));
        }
    }
}

/// What is known of the quotient of a square by `2^32`.
proof fn lemma_square_quotient(x: int)
    requires
        0 <= x,
    ensures
        0 <= (x * x) / 0x1_0000_0000,
        ((x * x) / 0x1_0000_0000) * 0x1_0000_0000 <= x * x,
        x * x < ((x * x) / 0x1_0000_0000) * 0x1_0000_0000 + 0x1_0000_0000,
{
    assert(0 <= x * x) by (nonlinear_arith)
        requires
            0 <= x,
    ;
}

/// What is known of the quotient of `x * 2^32` by a positive `m`.
proof fn lemma_scaled_quotient(x: int, m: int)
    requires
        0 <= x,
        0 < m,
    ensures
        0 <= (x * 0x1_0000_0000) / m,
        ((x * 0x1_0000_0000) / m) * m <= x * 0x1_0000_0000,
        x * 0x1_0000_0000 < ((x * 0x1_0000_0000) / m) * m + m,
{
    let n = x * 0x1_0000_0000;
    vstd::arithmetic::div_mod::lemma_fundamental_div_mod(n, m);
    vstd::arithmetic::div_mod::lemma_mod_bound(n, m);
    vstd::arithmetic::div_mod::lemma_div_pos_is_pos(n, m);
    assert((n / m) * m == m * (n / m)) by (nonlinear_arith);
}

/// Squaring keeps the order of numbers that are not negative.
proof fn lemma_square_order(x: int, y: int)
    requires
        0 <= x <= y,
    ensures
        x * x <= y * y,
{
    assert(x * x <= y * y) by (nonlinear_arith)
        requires
            0 <= x <= y,
    ;
}

/// Of two numbers that are not negative, the one with the smaller square is
/// the smaller.
proof fn lemma_square_order_back(x: int, y: int)
    requires
        0 <= x,
        0 <= y,
        x * x < y * y,
    ensures
        x < y,
{
    if x >= y {
        lemma_square_order(y, x);
    }
}

/// The three quotients of a vector of raw sizes `a`, `b`, `c` when it is
/// brought to length 1: the length `m` that is found, what each component
/// becomes, and the length `big` that is found of the result.
pub open spec fn unit_length_of(a: int, b: int, c: int) -> int {
    let s = 0x1_0000_0000int;
    let q = (a * a) / s + (b * b) / s + (c * c) / s;
    let m = isqrt(q * s);
    let na = (a * s) / m;
    let nb = (b * s) / m;
    let nc = (c * s) / m;
    let r = (na * na) / s + (nb * nb) / s + (nc * nc) / s;
    isqrt(r * s)
}

/// The length found of a vector is at most a step under its true length
/// and the components are less than twice as long.
proof fn lemma_found_length(a: int, b: int, c: int, m: int)
    requires
        0 <= a <= COMPONENT_LIMIT,
        0 <= b <= COMPONENT_LIMIT,
        0 <= c <= COMPONENT_LIMIT,
        is_isqrt(
            ((a * a) / 0x1_0000_0000 + (b * b) / 0x1_0000_0000 + (c * c) / 0x1_0000_0000)
                * 0x1_0000_0000,
            m,
        ),
        m >= LENGTH_FLOOR,
    ensures
        m * m <= a * a + b * b + c * c,
        a * a + b * b + c * c < (m + 1) * (m + 1) + 3 * 0x1_0000_0000,
        a < 2 * m,
        b < 2 * m,
        c < 2 * m,
{
    lemma_square_quotient(a);
    lemma_square_quotient(b);
    lemma_square_quotient(c);
    let sum = a * a + b * b + c * c;
    assert(sum < (m + 1) * (m + 1) + 3 * 0x1_0000_0000);
    assert((m + 1) * (m + 1) + 3 * 0x1_0000_0000 <= (2 * m) * (2 * m)) by (nonlinear_arith)
        requires
            m >= 0x1000_0000,
    ;
    assert(0 <= b * b && 0 <= c * c && 0 <= a * a) by (nonlinear_arith);
    assert(a * a < (2 * m) * (2 * m));
    assert(b * b < (2 * m) * (2 * m));
    assert(c * c < (2 * m) * (2 * m));
    lemma_square_order_back(a, 2 * m);
    lemma_square_order_back(b, 2 * m);
    lemma_square_order_back(c, 2 * m);
}

/// What is known of one component `x` of a vector of found length `m` when
/// it is divided by that length: the quotient `n` is under 2, its square
/// times `m * m` is at most the square of `x * 2^32`, and the square of the
/// next integer times `m * m` is more.
proof fn lemma_component(x: int, m: int)
    requires
        0 <= x < 2 * m,
        0 < m,
    ensures
        0 <= (x * 0x1_0000_0000) / m < 2 * 0x1_0000_0000,
        (((x * 0x1_0000_0000) / m) * ((x * 0x1_0000_0000) / m)) * (m * m) <= (x * x) * (0x1_0000_0000
            * 0x1_0000_0000),
        (x * x) * (0x1_0000_0000 * 0x1_0000_0000) < ((((x * 0x1_0000_0000) / m) + 1) * (((x
            * 0x1_0000_0000) / m) + 1)) * (m * m),
{
    let s = 0x1_0000_0000int;
    let n = (x * s) / m;
    lemma_scaled_quotient(x, m);
    assert(n < 2 * s) by (nonlinear_arith)
        requires
            n * m <= x * s,
            x < 2 * m,
            0 < m,
            0 <= n,
            s == 0x1_0000_0000,
    ;
    lemma_square_order(n * m, x * s);
    assert((n * m) * (n * m) == (n * n) * (m * m)) by (nonlinear_arith);
    assert((x * s) * (x * s) == (x * x) * (s * s)) by (nonlinear_arith);
    assert(0 <= x * s) by (nonlinear_arith)
        requires
            0 <= x,
            s == 0x1_0000_0000,
    ;
    assert(n * m + m == (n + 1) * m) by (nonlinear_arith);
    assert((x * s) * (x * s) < ((n + 1) * m) * ((n + 1) * m)) by (nonlinear_arith)
        requires
            0 <= x * s < (n + 1) * m,
    ;
    assert(((n + 1) * m) * ((n + 1) * m) == ((n + 1) * (n + 1)) * (m * m)) by (nonlinear_arith);
}

/// A vector of raw sizes `a`, `b`, `c`, none over the limit, whose found
/// length is at least the floor, has after it is brought to length 1 a
/// found length within the slack of 1.
pub proof fn lemma_unit_length(a: int, b: int, c: int)
    requires
        0 <= a <= COMPONENT_LIMIT,
        0 <= b <= COMPONENT_LIMIT,
        0 <= c <= COMPONENT_LIMIT,
        isqrt(
            ((a * a) / 0x1_0000_0000 + (b * b) / 0x1_0000_0000 + (c * c) / 0x1_0000_0000)
                * 0x1_0000_0000,
        ) >= LENGTH_FLOOR,
    ensures
        ONE_RAW - UNIT_SLACK_UNDER <= unit_length_of(a, b, c) <= ONE_RAW + UNIT_SLACK_OVER,
{
    let s = 0x1_0000_0000int;
    lemma_square_quotient(a);
    lemma_square_quotient(b);
    lemma_square_quotient(c);
    let q = (a * a) / s + (b * b) / s + (c * c) / s;
    lemma_isqrt_exists(q * s);
    let m = isqrt(q * s);
    lemma_found_length(a, b, c, m);
    let na = (a * s) / m;
    let nb = (b * s) / m;
    let nc = (c * s) / m;
    lemma_component(a, m);
    lemma_component(b, m);
    lemma_component(c, m);
    lemma_square_quotient(na);
    lemma_square_quotient(nb);
    lemma_square_quotient(nc);
    let r = (na * na) / s + (nb * nb) / s + (nc * nc) / s;
    lemma_isqrt_exists(r * s);
    let big = isqrt(r * s);
    let squares = a * a + b * b + c * c;
    let unit_squares = na * na + nb * nb + nc * nc;
    let next_squares = (na + 1) * (na + 1) + (nb + 1) * (nb + 1) + (nc + 1) * (nc + 1);
    let mm = m * m;
    let ss = s * s;
    assert(0 < mm) by (nonlinear_arith)
        requires
            m >= 0x1000_0000,
            mm == m * m,
    ;
    // the sum of the squares of the quotients, from above and from below
    assert(unit_squares * mm <= squares * ss) by (nonlinear_arith)
        requires
            (na * na) * mm <= (a * a) * ss,
            (nb * nb) * mm <= (b * b) * ss,
            (nc * nc) * mm <= (c * c) * ss,
            unit_squares == na * na + nb * nb + nc * nc,
            squares == a * a + b * b + c * c,
    ;
    assert(squares * ss < next_squares * mm) by (nonlinear_arith)
        requires
            (a * a) * ss < ((na + 1) * (na + 1)) * mm,
            (b * b) * ss < ((nb + 1) * (nb + 1)) * mm,
            (c * c) * ss < ((nc + 1) * (nc + 1)) * mm,
            next_squares == (na + 1) * (na + 1) + (nb + 1) * (nb + 1) + (nc + 1) * (nc + 1),
            squares == a * a + b * b + c * c,
    ;
    // from above
    let over = s + 4097;
    if r * s >= over * over {
        assert(over * over * mm <= unit_squares * mm) by (nonlinear_arith)
            requires
                over * over <= r * s,
                r * s <= unit_squares,
                0 < mm,
        ;
        assert(squares * ss < ((m + 1) * (m + 1) + 3 * s) * ss) by (nonlinear_arith)
            requires
                squares < (m + 1) * (m + 1) + 3 * s,
                ss == s * s,
                s == 0x1_0000_0000,
        ;
        assert(((m + 1) * (m + 1) + 3 * s) * ss <= over * over * mm) by (nonlinear_arith)
            requires
                m >= 0x1000_0000,
                mm == m * m,
                ss == s * s,
                s == 0x1_0000_0000,
                over == s + 4097,
        ;
        assert(false);
    }
    assert(big * big < over * over);
    lemma_square_order_back(big, over);
    // from below
    assert(mm * ss <= squares * ss) by (nonlinear_arith)
        requires
            mm <= squares,
            0 <= ss,
    ;
    assert(ss < next_squares) by (nonlinear_arith)
        requires
            mm * ss < next_squares * mm,
            0 < mm,
    ;
    assert(next_squares == unit_squares + 2 * (na + nb + nc) + 3) by (nonlinear_arith)
        requires
            next_squares == (na + 1) * (na + 1) + (nb + 1) * (nb + 1) + (nc + 1) * (nc + 1),
            unit_squares == na * na + nb * nb + nc * nc,
    ;
    let under = s - 8;
    assert(under * under < r * s + 1) by (nonlinear_arith)
        requires
            ss < unit_squares + 12 * s + 3,
            unit_squares < r * s + 3 * s,
            ss == s * s,
            under == s - 8,
            s == 0x1_0000_0000,
    ;
    assert(under * under < (big + 1) * (big + 1));
    lemma_square_order_back(under, big + 1);
}

/// The square of a scalar within the limit, in raw integers.
proof fn lemma_square_raw(x: Scalar)
    requires
        size(x.raw as int) <= COMPONENT_LIMIT,
    ensures
        x.mul(x).raw == (size(x.raw as int) * size(x.raw as int)) / 0x1_0000_0000,
{
    let a = size(x.raw as int);
    assert(x.raw * x.raw == a * a) by (nonlinear_arith)
        requires
            a == size(x.raw as int),
    ;
    assert(0 <= a * a <= 0x4000_0000_0000 * 0x4000_0000_0000) by (nonlinear_arith)
        requires
            0 <= a <= 0x4000_0000_0000,
    ;
}

/// The quotient of a scalar by a positive one, in raw integers, where the
/// quotient is under 2.
proof fn lemma_quotient_raw(x: Scalar, m: Scalar)
    requires
        0 < m.raw,
        size(x.raw as int) < 2 * m.raw,
    ensures
        size(x.div(m).raw as int) == (size(x.raw as int) * 0x1_0000_0000) / (m.raw as int),
        size(x.div(m).raw as int) < 2 * 0x1_0000_0000,
{
    let a = size(x.raw as int);
    lemma_component(a, m.raw as int);
}

/// A vector brought to length 1 has length 1 within the slack, and so
/// within the tolerance, where none of its components is larger than 16384
/// and its length is found to be at least one sixteenth.
pub proof fn lemma_normalize_is_unit(v: Vector)
    requires
        v.3 == Scalar::zero(),
        size(v.0.raw as int) <= COMPONENT_LIMIT,
        size(v.1.raw as int) <= COMPONENT_LIMIT,
        size(v.2.raw as int) <= COMPONENT_LIMIT,
        v.spec_magnitude().raw >= LENGTH_FLOOR,
    ensures
        ONE_RAW - UNIT_SLACK_UNDER <= v.spec_normalize().spec_magnitude().raw <= ONE_RAW
            + UNIT_SLACK_OVER,
        v.spec_normalize().spec_magnitude().approx_eq(Scalar::one()),
        v.spec_normalize().3 == Scalar::zero(),
{
    let s = 0x1_0000_0000int;
    let a = size(v.0.raw as int);
    let b = size(v.1.raw as int);
    let c = size(v.2.raw as int);
    lemma_square_raw(v.0);
    lemma_square_raw(v.1);
    lemma_square_raw(v.2);
    lemma_square_quotient(a);
    lemma_square_quotient(b);
    lemma_square_quotient(c);
    assert(a * a <= 0x4000_0000_0000 * 0x4000_0000_0000 && b * b <= 0x4000_0000_0000
        * 0x4000_0000_0000 && c * c <= 0x4000_0000_0000 * 0x4000_0000_0000) by (nonlinear_arith)
        requires
            0 <= a <= 0x4000_0000_0000,
            0 <= b <= 0x4000_0000_0000,
            0 <= c <= 0x4000_0000_0000,
    ;
    let q = (a * a) / s + (b * b) / s + (c * c) / s;
    assert(v.spec_norm_squared().raw == q);
    let length = v.spec_magnitude();
    let m = length.raw as int;
    assert(q > 0);
    lemma_isqrt_exists(q * s);
    lemma_isqrt_fits(q * s);
    assert(m == isqrt(q * s));
    lemma_found_length(a, b, c, m);
    lemma_quotient_raw(v.0, length);
    lemma_quotient_raw(v.1, length);
    lemma_quotient_raw(v.2, length);
    let unit = v.spec_normalize();
    let na = size(unit.0.raw as int);
    let nb = size(unit.1.raw as int);
    let nc = size(unit.2.raw as int);
    assert(unit.3 == Scalar::zero());
    lemma_square_raw(unit.0);
    lemma_square_raw(unit.1);
    lemma_square_raw(unit.2);
    lemma_square_quotient(na);
    lemma_square_quotient(nb);
    lemma_square_quotient(nc);
    assert(na * na <= 0x2_0000_0000 * 0x2_0000_0000 && nb * nb <= 0x2_0000_0000 * 0x2_0000_0000
        && nc * nc <= 0x2_0000_0000 * 0x2_0000_0000) by (nonlinear_arith)
        requires
            0 <= na <= 0x2_0000_0000,
            0 <= nb <= 0x2_0000_0000,
            0 <= nc <= 0x2_0000_0000,
    ;
    let r = (na * na) / s + (nb * nb) / s + (nc * nc) / s;
    assert(unit.spec_norm_squared().raw == r);
    lemma_unit_length(a, b, c);
    assert(unit_length_of(a, b, c) == isqrt(r * s));
    lemma_isqrt_exists(r * s);
    lemma_isqrt_fits(r * s);
    if r <= 0 {
        lemma_isqrt_unique(0, 0, isqrt(0));
    }
}

/// The largest raw size of a cell of a matrix and of a distance along a ray
/// for which a ray is known to follow its matrix: 1024.
pub const FACTOR_LIMIT: i64 = 0x400_0000_0000;

/// The largest raw size of a coordinate of a ray for which it is known to
/// follow its matrix: 64.
pub const COORDINATE_LIMIT: i64 = 0x40_0000_0000;

/// How far apart, in raw steps, a coordinate of a point on a transformed
/// ray and of the transformed point on the ray may lie.
pub const FOLLOW_SLACK: i64 = 8200;

/// A product whose factors have raw sizes of at most `x_limit` and
/// `y_limit`, where the product of the limits is at most `2^94`, is the
/// true product over `2^32` with an error under one step, and is not
/// clamped.
proof fn lemma_mul_error(x: Scalar, y: Scalar, x_limit: int, y_limit: int)
    requires
        size(x.raw as int) <= x_limit,
        size(y.raw as int) <= y_limit,
        0 <= x_limit,
        0 <= y_limit,
        x_limit * y_limit <= 0x4000_0000_0000_0000_0000_0000,
    ensures
        -0x1_0000_0000 < 0x1_0000_0000 * x.mul(y).raw - x.raw * y.raw < 0x1_0000_0000,
        0x1_0000_0000 * size(x.mul(y).raw as int) <= x_limit * y_limit,
{
    let n = x.raw * y.raw;
    assert(-(x_limit * y_limit) <= n <= x_limit * y_limit) by (nonlinear_arith)
        requires
            n == x.raw * y.raw,
            -x_limit <= x.raw <= x_limit,
            -y_limit <= y.raw <= y_limit,
    ;
}

/// One term of a row times a point on a ray. For a cell `m`, coordinates
/// `o` of the origin and `d` of the direction, and a distance `t`: what
/// `m * o`, less `m * (o + d * t)`, plus `(m * d) * t` in whole steps comes
/// to lies under `2 + (|t| + |m|) / 2^32` steps.
proof fn lemma_term_follows(m: Scalar, o: Scalar, d: Scalar, t: Scalar)
    requires
        size(m.raw as int) <= FACTOR_LIMIT,
        size(t.raw as int) <= FACTOR_LIMIT,
        size(o.raw as int) <= COORDINATE_LIMIT,
        size(d.raw as int) <= COORDINATE_LIMIT,
    ensures
        size(
            0x1_0000_0000 * m.mul(o).raw - 0x1_0000_0000 * m.mul(o.add(d.mul(t))).raw + m.mul(d).raw
                * t.raw,
        ) < 2 * 0x1_0000_0000 + 2 * FACTOR_LIMIT,
        size(m.mul(o).raw as int) <= 0x1_0000_0000_0000,
        size(m.mul(d).raw as int) <= 0x1_0000_0000_0000,
        size(m.mul(o.add(d.mul(t))).raw as int) <= 0x800_0000_0000_0000,
{
    let s = 0x1_0000_0000int;
    let big_p = m.mul(o).raw as int;
    let big_q = m.mul(d).raw as int;
    let u = d.mul(t).raw as int;
    lemma_mul_error(m, o, FACTOR_LIMIT as int, COORDINATE_LIMIT as int);
    lemma_mul_error(m, d, FACTOR_LIMIT as int, COORDINATE_LIMIT as int);
    lemma_mul_error(d, t, COORDINATE_LIMIT as int, FACTOR_LIMIT as int);
    let p = o.add(d.mul(t));
    assert(p.raw == o.raw + u);
    assert(size(p.raw as int) <= 0x2_0000_0000_0000);
    lemma_mul_error(m, p, FACTOR_LIMIT as int, 0x2_0000_0000_0000);
    let big_v = m.mul(p).raw as int;
    let a = s * big_p - m.raw * o.raw;
    let b = s * big_q - m.raw * d.raw;
    let f = s * u - d.raw * t.raw;
    let g = s * big_v - m.raw * p.raw;
    assert(m.raw * p.raw == m.raw * o.raw + m.raw * u) by (nonlinear_arith)
        requires
            p.raw == o.raw + u,
    ;
    let cross = big_q * t.raw - m.raw * u;
    assert(s * cross == b * t.raw - m.raw * f) by (nonlinear_arith)
        requires
            cross == big_q * t.raw - m.raw * u,
            b == s * big_q - m.raw * d.raw,
            f == s * u - d.raw * t.raw,
    ;
    assert(-(s * FACTOR_LIMIT) <= b * t.raw <= s * FACTOR_LIMIT) by (nonlinear_arith)
        requires
            -s < b < s,
            -FACTOR_LIMIT <= t.raw <= FACTOR_LIMIT,
            s == 0x1_0000_0000,
    ;
    assert(-(s * FACTOR_LIMIT) <= m.raw * f <= s * FACTOR_LIMIT) by (nonlinear_arith)
        requires
            -s < f < s,
            -FACTOR_LIMIT <= m.raw <= FACTOR_LIMIT,
            s == 0x1_0000_0000,
    ;
    assert(-2 * FACTOR_LIMIT <= cross <= 2 * FACTOR_LIMIT) by (nonlinear_arith)
        requires
            s * cross == b * t.raw - m.raw * f,
            -(s * FACTOR_LIMIT) <= b * t.raw <= s * FACTOR_LIMIT,
            -(s * FACTOR_LIMIT) <= m.raw * f <= s * FACTOR_LIMIT,
            s == 0x1_0000_0000,
    ;
    assert(s * big_p - s * big_v + big_q * t.raw == a - g + cross);
}

/// One row of a matrix times a point on a ray. The row times the origin,
/// plus the row times the direction times the distance, lies within the
/// slack of the row times the point at that distance, where the cells of
/// the row and the distance are of size 1024 at most and the coordinates of
/// origin and direction of size 64 at most.
pub proof fn lemma_row_follows(row: Row, o: Row, d: Row, t: Scalar)
    requires
        size(row.0.raw as int) <= FACTOR_LIMIT,
        size(row.1.raw as int) <= FACTOR_LIMIT,
        size(row.2.raw as int) <= FACTOR_LIMIT,
        size(row.3.raw as int) <= FACTOR_LIMIT,
        size(t.raw as int) <= FACTOR_LIMIT,
        size(o.0.raw as int) <= COORDINATE_LIMIT,
        size(o.1.raw as int) <= COORDINATE_LIMIT,
        size(o.2.raw as int) <= COORDINATE_LIMIT,
        size(o.3.raw as int) <= COORDINATE_LIMIT,
        size(d.0.raw as int) <= COORDINATE_LIMIT,
        size(d.1.raw as int) <= COORDINATE_LIMIT,
        size(d.2.raw as int) <= COORDINATE_LIMIT,
        size(d.3.raw as int) <= COORDINATE_LIMIT,
    ensures
        size(
            row.spec_dot(o).add(row.spec_dot(d).mul(t)).raw - row.spec_dot(
                Row(
                    o.0.add(d.0.mul(t)),
                    o.1.add(d.1.mul(t)),
                    o.2.add(d.2.mul(t)),
                    o.3.add(d.3.mul(t)),
                ),
            ).raw,
        ) <= FOLLOW_SLACK,
{
    let s = 0x1_0000_0000int;
    lemma_term_follows(row.0, o.0, d.0, t);
    lemma_term_follows(row.1, o.1, d.1, t);
    lemma_term_follows(row.2, o.2, d.2, t);
    lemma_term_follows(row.3, o.3, d.3, t);
    let p = Row(o.0.add(d.0.mul(t)), o.1.add(d.1.mul(t)), o.2.add(d.2.mul(t)), o.3.add(d.3.mul(t)));
    let p0 = row.0.mul(o.0).raw as int;
    let p1 = row.1.mul(o.1).raw as int;
    let p2 = row.2.mul(o.2).raw as int;
    let p3 = row.3.mul(o.3).raw as int;
    let q0 = row.0.mul(d.0).raw as int;
    let q1 = row.1.mul(d.1).raw as int;
    let q2 = row.2.mul(d.2).raw as int;
    let q3 = row.3.mul(d.3).raw as int;
    let v0 = row.0.mul(p.0).raw as int;
    let v1 = row.1.mul(p.1).raw as int;
    let v2 = row.2.mul(p.2).raw as int;
    let v3 = row.3.mul(p.3).raw as int;
    let at_origin = row.spec_dot(o);
    let along = row.spec_dot(d);
    let at_point = row.spec_dot(p);
    assert(at_origin.raw == p0 + p1 + p2 + p3);
    assert(along.raw == q0 + q1 + q2 + q3);
    assert(at_point.raw == v0 + v1 + v2 + v3);
    lemma_mul_error(along, t, 0x4_0000_0000_0000, FACTOR_LIMIT as int);
    let c = along.mul(t).raw as int;
    let left = at_origin.add(along.mul(t));
    assert(left.raw == at_origin.raw + c);
    let e0 = s * p0 - s * v0 + q0 * t.raw;
    let e1 = s * p1 - s * v1 + q1 * t.raw;
    let e2 = s * p2 - s * v2 + q2 * t.raw;
    let e3 = s * p3 - s * v3 + q3 * t.raw;
    assert(along.raw * t.raw == q0 * t.raw + q1 * t.raw + q2 * t.raw + q3 * t.raw)
        by (nonlinear_arith)
        requires
            along.raw == q0 + q1 + q2 + q3,
    ;
    let gap = left.raw - at_point.raw;
    assert(s * gap == e0 + e1 + e2 + e3 + (s * c - along.raw * t.raw));
}

/// The square of a sum of three products is at most the product of the sums
/// of the squares.
proof fn lemma_dot_square(u0: int, u1: int, u2: int, n0: int, n1: int, n2: int)
    ensures
        (u0 * n0 + u1 * n1 + u2 * n2) * (u0 * n0 + u1 * n1 + u2 * n2) <= (u0 * u0 + u1 * u1 + u2
            * u2) * (n0 * n0 + n1 * n1 + n2 * n2),
{
    // the nine products of a component of the one with one of the other
    let p00 = u0 * n0;
    let p01 = u0 * n1;
    let p02 = u0 * n2;
    let p10 = u1 * n0;
    let p11 = u1 * n1;
    let p12 = u1 * n2;
    let p20 = u2 * n0;
    let p21 = u2 * n1;
    let p22 = u2 * n2;
    lemma_square_of_product(u0, n0);
    lemma_square_of_product(u0, n1);
    lemma_square_of_product(u0, n2);
    lemma_square_of_product(u1, n0);
    lemma_square_of_product(u1, n1);
    lemma_square_of_product(u1, n2);
    lemma_square_of_product(u2, n0);
    lemma_square_of_product(u2, n1);
    lemma_square_of_product(u2, n2);
    let q0 = u0 * u0;
    let q1 = u1 * u1;
    let q2 = u2 * u2;
    let m0 = n0 * n0;
    let m1 = n1 * n1;
    let m2 = n2 * n2;
    assert((q0 + q1 + q2) * (m0 + m1 + m2) == q0 * m0 + q0 * m1 + q0 * m2 + q1 * m0 + q1 * m1 + q1
        * m2 + q2 * m0 + q2 * m1 + q2 * m2) by (nonlinear_arith);
    lemma_crossed_products(u0, n0, u1, n1);
    lemma_crossed_products(u0, n0, u2, n2);
    lemma_crossed_products(u1, n1, u2, n2);
    let a = p01 - p10;
    let b = p02 - p20;
    let c = p12 - p21;
    let d = p00 + p11 + p22;
    assert(a * a == p01 * p01 - 2 * (p01 * p10) + p10 * p10) by (nonlinear_arith)
        requires
            a == p01 - p10,
    ;
    assert(b * b == p02 * p02 - 2 * (p02 * p20) + p20 * p20) by (nonlinear_arith)
        requires
            b == p02 - p20,
    ;
    assert(c * c == p12 * p12 - 2 * (p12 * p21) + p21 * p21) by (nonlinear_arith)
        requires
            c == p12 - p21,
    ;
    assert(d * d == p00 * p00 + p11 * p11 + p22 * p22 + 2 * (p00 * p11) + 2 * (p00 * p22) + 2 * (p11
        * p22)) by (nonlinear_arith)
        requires
            d == p00 + p11 + p22,
    ;
    assert(0 <= a * a && 0 <= b * b && 0 <= c * c) by (nonlinear_arith);
    assert((q0 + q1 + q2) * (m0 + m1 + m2) - d * d == a * a + b * b + c * c);
}

/// The product of two squares is the square of the product.
proof fn lemma_square_of_product(x: int, y: int)
    ensures
        (x * x) * (y * y) == (x * y) * (x * y),
{
    assert((x * x) * (y * y) == (x * y) * (x * y)) by (nonlinear_arith);
}

/// Four factors multiplied crosswise give the same as multiplied pairwise.
proof fn lemma_crossed_products(x: int, a: int, y: int, b: int)
    ensures
        (x * b) * (y * a) == (x * a) * (y * b),
{
    assert((x * b) * (y * a) == (x * a) * (y * b)) by (nonlinear_arith);
}

/// What one component adds to the change of the sum of squares when a
/// vector is mirrored. With `w` the step that the component takes and `f`
/// its rounding error, `2^32 * w == 2 * n * k + f`:
/// `2^64 * (w * w - 2 * u * w)` is
/// `4 * k * k * n * n + 4 * k * n * f + f * f - 2^33 * u * (2 * n * k + f)`.
proof fn lemma_mirror_component(u: int, n: int, k: int, w: int, f: int)
    requires
        0x1_0000_0000 * w == 2 * n * k + f,
    ensures
        0x1_0000_0000_0000_0000 * ((u - w) * (u - w) - u * u) == 4 * ((k * k) * (n * n)) + 4 * (k
            * (n * f)) + f * f - 0x2_0000_0000 * (2 * (k * (u * n)) + u * f),
{
    let s = 0x1_0000_0000int;
    let sw = s * w;
    let ww = w * w;
    let uw = u * w;
    assert((u - w) * (u - w) - u * u == ww - 2 * uw) by (nonlinear_arith)
        requires
            ww == w * w,
            uw == u * w,
    ;
    assert(0x1_0000_0000_0000_0000 * ww == sw * sw) by (nonlinear_arith)
        requires
            sw == 0x1_0000_0000 * w,
            ww == w * w,
    ;
    assert(sw * sw == 4 * ((k * k) * (n * n)) + 4 * (k * (n * f)) + f * f) by (nonlinear_arith)
        requires
            sw == 2 * n * k + f,
    ;
    assert(0x1_0000_0000 * uw == u * sw) by (nonlinear_arith)
        requires
            sw == 0x1_0000_0000 * w,
            uw == u * w,
    ;
    assert(u * sw == 2 * (k * (u * n)) + u * f) by (nonlinear_arith)
        requires
            sw == 2 * n * k + f,
    ;
}

/// A product of two numbers lies between the products of their bounds.
proof fn lemma_product_bound(x: int, y: int, x_limit: int, y_limit: int)
    requires
        -x_limit <= x <= x_limit,
        -y_limit <= y <= y_limit,
    ensures
        -(x_limit * y_limit) <= x * y <= x_limit * y_limit,
{
    assert(-(x_limit * y_limit) <= x * y <= x_limit * y_limit) by (nonlinear_arith)
        requires
            -x_limit <= x <= x_limit,
            -y_limit <= y <= y_limit,
    ;
}

/// How much the sum of the squares of a vector changes when it is mirrored
/// at a vector of length 1 within the slack: by at most 32900 parts in
/// `2^32` of itself and 300 whole steps more.
///
/// Here `uu` and `nn` are the sums of the squares of the vector and of the
/// normal, `d` is their true dot product and `k` the one that is found,
/// and each component `u` becomes `r = u - w` where `2^32 * w` is
/// `2 * n * k` but for a rounding error.
proof fn lemma_mirror_change(
    u0: int,
    u1: int,
    u2: int,
    n0: int,
    n1: int,
    n2: int,
    k: int,
    w0: int,
    w1: int,
    w2: int,
)
    requires
        -0x1_0000_0000 <= u0 <= 0x1_0000_0000,
        -0x1_0000_0000 <= u1 <= 0x1_0000_0000,
        -0x1_0000_0000 <= u2 <= 0x1_0000_0000,
        -0x2_0000_0000 <= n0 <= 0x2_0000_0000,
        -0x2_0000_0000 <= n1 <= 0x2_0000_0000,
        -0x2_0000_0000 <= n2 <= 0x2_0000_0000,
        0x1_0000_0000 * 0x1_0000_0000 - 16 * 0x1_0000_0000 <= n0 * n0 + n1 * n1 + n2 * n2
            <= 0x1_0000_0000 * 0x1_0000_0000 + 8198 * 0x1_0000_0000,
        -3 * 0x1_0000_0000 < 0x1_0000_0000 * k - (u0 * n0 + u1 * n1 + u2 * n2) < 3
            * 0x1_0000_0000,
        -0x1_0000_0000 < 0x1_0000_0000 * w0 - 2 * n0 * k < 0x1_0000_0000,
        -0x1_0000_0000 < 0x1_0000_0000 * w1 - 2 * n1 * k < 0x1_0000_0000,
        -0x1_0000_0000 < 0x1_0000_0000 * w2 - 2 * n2 * k < 0x1_0000_0000,
    ensures
        0x1_0000_0000 * size(
            ((u0 - w0) * (u0 - w0) + (u1 - w1) * (u1 - w1) + (u2 - w2) * (u2 - w2)) - (u0 * u0 + u1
                * u1 + u2 * u2),
        ) <= 32900 * (u0 * u0 + u1 * u1 + u2 * u2) + 300 * (0x1_0000_0000 * 0x1_0000_0000),
{
    let s = 0x1_0000_0000int;
    let ss = s * s;
    let uu = u0 * u0 + u1 * u1 + u2 * u2;
    let nn = n0 * n0 + n1 * n1 + n2 * n2;
    let d = u0 * n0 + u1 * n1 + u2 * n2;
    let e = s * k - d;
    let f0 = s * w0 - 2 * n0 * k;
    let f1 = s * w1 - 2 * n1 * k;
    let f2 = s * w2 - 2 * n2 * k;
    let rr = (u0 - w0) * (u0 - w0) + (u1 - w1) * (u1 - w1) + (u2 - w2) * (u2 - w2);
    lemma_mirror_component(u0, n0, k, w0, f0);
    lemma_mirror_component(u1, n1, k, w1, f1);
    lemma_mirror_component(u2, n2, k, w2, f2);
    let kk = k * k;
    let nf = n0 * f0 + n1 * f1 + n2 * f2;
    let uf = u0 * f0 + u1 * f1 + u2 * f2;
    let ff = f0 * f0 + f1 * f1 + f2 * f2;
    // all the change, times 2^64, in five parts
    let x0 = (u0 - w0) * (u0 - w0) - u0 * u0;
    let x1 = (u1 - w1) * (u1 - w1) - u1 * u1;
    let x2 = (u2 - w2) * (u2 - w2) - u2 * u2;
    let a0 = kk * (n0 * n0);
    let a1 = kk * (n1 * n1);
    let a2 = kk * (n2 * n2);
    let b0 = k * (n0 * f0);
    let b1 = k * (n1 * f1);
    let b2 = k * (n2 * f2);
    let g0 = k * (u0 * n0);
    let g1 = k * (u1 * n1);
    let g2 = k * (u2 * n2);
    assert(kk * nn == a0 + a1 + a2) by (nonlinear_arith)
        requires
            nn == n0 * n0 + n1 * n1 + n2 * n2,
            a0 == kk * (n0 * n0),
            a1 == kk * (n1 * n1),
            a2 == kk * (n2 * n2),
    ;
    assert(k * nf == b0 + b1 + b2) by (nonlinear_arith)
        requires
            nf == n0 * f0 + n1 * f1 + n2 * f2,
            b0 == k * (n0 * f0),
            b1 == k * (n1 * f1),
            b2 == k * (n2 * f2),
    ;
    assert(k * d == g0 + g1 + g2) by (nonlinear_arith)
        requires
            d == u0 * n0 + u1 * n1 + u2 * n2,
            g0 == k * (u0 * n0),
            g1 == k * (u1 * n1),
            g2 == k * (u2 * n2),
    ;
    assert(rr - uu == x0 + x1 + x2);
    assert(ss == 0x1_0000_0000_0000_0000) by (nonlinear_arith)
        requires
            ss == s * s,
            s == 0x1_0000_0000,
    ;
    assert(ss * (rr - uu) == 4 * (kk * nn) + 4 * (k * nf) + ff - 2 * s * (2 * (k * d) + uf));
    let excess = nn - ss;
    let ke = k * e;
    assert(4 * (kk * nn) - 4 * s * (k * d) == 4 * (kk * excess) + 4 * s * ke) by (nonlinear_arith)
        requires
            excess == nn - ss,
            e == s * k - d,
            ss == s * s,
            kk == k * k,
            ke == k * e,
    ;
    assert(ss * (rr - uu) == 4 * (kk * excess) + 4 * s * ke + 4 * (k * nf) + ff - 2 * s * uf);
    // the size of the found dot product
    lemma_product_bound(u0, n0, s, 2 * s);
    lemma_product_bound(u1, n1, s, 2 * s);
    lemma_product_bound(u2, n2, s, 2 * s);
    assert(-7 * s < k < 7 * s) by (nonlinear_arith)
        requires
            -3 * s < s * k - d < 3 * s,
            -(6 * (s * s)) <= d <= 6 * (s * s),
            s == 0x1_0000_0000,
    ;
    // the four small parts
    lemma_product_bound(k, e, 7 * s, 3 * s);
    lemma_product_bound(n0, f0, 2 * s, s);
    lemma_product_bound(n1, f1, 2 * s, s);
    lemma_product_bound(n2, f2, 2 * s, s);
    lemma_product_bound(k, nf, 7 * s, 6 * ss);
    lemma_product_bound(u0, f0, s, s);
    lemma_product_bound(u1, f1, s, s);
    lemma_product_bound(u2, f2, s, s);
    lemma_product_bound(f0, f0, s, s);
    lemma_product_bound(f1, f1, s, s);
    lemma_product_bound(f2, f2, s, s);
    assert((2 * s) * s == 2 * ss && (7 * s) * (3 * s) == 21 * ss && s * s == ss) by (nonlinear_arith)
        requires
            ss == s * s,
    ;
    let sss = s * ss;
    assert((7 * s) * (6 * ss) == 42 * sss) by (nonlinear_arith)
        requires
            sss == s * ss,
    ;
    assert(s * (21 * ss) == 21 * sss && s * (3 * ss) == 3 * sss) by (nonlinear_arith)
        requires
            sss == s * ss,
    ;
    let knf = k * nf;
    let small = 4 * s * ke + 4 * knf + ff - 2 * s * uf;
    assert(-(259 * sss) <= small <= 259 * sss) by (nonlinear_arith)
        requires
            small == 4 * s * ke + 4 * knf + ff - 2 * s * uf,
            -(21 * ss) <= ke <= 21 * ss,
            -(42 * sss) <= knf <= 42 * sss,
            -(3 * ss) <= ff <= 3 * ss,
            -(3 * ss) <= uf <= 3 * ss,
            sss == s * ss,
            ss == s * s,
            s == 0x1_0000_0000,
    ;
    // the large part: the square of the found dot product
    lemma_dot_square(u0, u1, u2, n0, n1, n2);
    let dd = d * d;
    assert(1000 * (ss * kk) <= 1001 * dd + 9009000 * ss) by (nonlinear_arith)
        requires
            e == s * k - d,
            -3 * s < e < 3 * s,
            ss == s * s,
            kk == k * k,
            dd == d * d,
            s == 0x1_0000_0000,
    ;
    assert(0 <= uu) by (nonlinear_arith)
        requires
            uu == u0 * u0 + u1 * u1 + u2 * u2,
    ;
    assert(0 <= kk) by (nonlinear_arith)
        requires
            kk == k * k,
    ;
    assert(uu * nn <= uu * (ss + 8198 * s)) by (nonlinear_arith)
        requires
            0 <= uu,
            nn <= ss + 8198 * s,
    ;
    assert(1000 * (ss * kk) <= 1001 * (uu * (ss + 8198 * s)) + 9009000 * ss);
    // the large part is at most 4 * 8198 * 2^32 times that square
    let large = kk * excess;
    let skk = s * kk;
    let uus = uu * s;
    assert(-(8198 * skk) <= large <= 8198 * skk) by (nonlinear_arith)
        requires
            large == kk * excess,
            skk == s * kk,
            -(16 * s) <= excess <= 8198 * s,
            0 <= kk,
            s == 0x1_0000_0000,
    ;
    assert(32792 * skk <= 32900 * uus + sss) by (nonlinear_arith)
        requires
            1000 * (ss * kk) <= 1001 * (uu * (ss + 8198 * s)) + 9009000 * ss,
            skk == s * kk,
            uus == uu * s,
            0 <= uu,
            0 <= kk,
            ss == s * s,
            sss == s * ss,
            s == 0x1_0000_0000,
    ;
    let change = ss * (rr - uu);
    assert(change == 4 * large + small);
    assert(-(32900 * uus + 260 * sss) <= change <= 32900 * uus + 260 * sss);
    assert(s * size(rr - uu) <= 32900 * uu + 300 * ss) by (nonlinear_arith)
        requires
            -(32900 * uus + 260 * sss) <= change <= 32900 * uus + 260 * sss,
            change == ss * (rr - uu),
            uus == uu * s,
            ss == s * s,
            sss == s * ss,
            s == 0x1_0000_0000,
    ;
}

/// The most raw steps by which two lengths that are within the tolerance
/// of each other differ.
pub const TOLERANCE_STEPS: i64 = 42949;

/// Two vectors whose sums of squares `uu` and `rr` differ by little have
/// found lengths within the tolerance of each other, where the one is at
/// least one sixteenth long and none of its components larger than 1.
///
/// Here `x` and `y` are the sums of squares as they are found, each at most
/// three steps of `2^32` under the true one, and `by_u` and `by_r` their
/// integer square roots.
proof fn lemma_lengths_close(uu: int, rr: int, x: int, y: int, by_u: int, by_r: int)
    requires
        0 <= uu <= 3 * (0x1_0000_0000 * 0x1_0000_0000),
        x <= uu < x + 3 * 0x1_0000_0000,
        y <= rr < y + 3 * 0x1_0000_0000,
        is_isqrt(x, by_u),
        is_isqrt(y, by_r),
        by_u >= LENGTH_FLOOR,
        0x1_0000_0000 * size(rr - uu) <= 32900 * uu + 300 * (0x1_0000_0000 * 0x1_0000_0000),
    ensures
        size(by_r - by_u) <= TOLERANCE_STEPS,
{
    let s = 0x1_0000_0000int;
    let ss = s * s;
    let e = 42949int;
    assert(ss == 0x1_0000_0000_0000_0000) by (nonlinear_arith)
        requires
            ss == s * s,
            s == 0x1_0000_0000,
    ;
    let uq = by_u * by_u;
    let rq = by_r * by_r;
    // the length of the first is under 2
    if by_u > 2 * s {
        lemma_square_order(2 * s, by_u);
        assert((2 * s) * (2 * s) == 4 * ss) by (nonlinear_arith)
            requires
                ss == s * s,
        ;
    }
    let gain = by_u * (2 * s * e - 32900 * by_u);
    assert(gain >= 1256 * ss) by (nonlinear_arith)
        requires
            gain == by_u * (2 * s * e - 32900 * by_u),
            0x1000_0000 <= by_u <= 2 * s,
            ss == s * s,
            s == 0x1_0000_0000,
            e == 42949,
    ;
    if by_r >= by_u + e + 1 {
        let next = by_u + 1;
        let far = next + e;
        lemma_square_order(far, by_r);
        let nq = next * next;
        assert(far * far == nq + 2 * e * next + e * e) by (nonlinear_arith)
            requires
                far == next + e,
                nq == next * next,
        ;
        // s * rr <= (s + 32900) * uu + 300 * ss, rr >= far * far, uu < nq + 3 * s
        let top = (s + 32900) * (nq + 3 * s) + 300 * ss;
        assert(s * rr <= (s + 32900) * uu + 300 * ss);
        assert((s + 32900) * uu <= (s + 32900) * (nq + 3 * s)) by (nonlinear_arith)
            requires
                uu <= nq + 3 * s,
                s == 0x1_0000_0000,
        ;
        assert(s * (far * far) <= s * rr) by (nonlinear_arith)
            requires
                far * far <= rr,
                s == 0x1_0000_0000,
        ;
        let next_gain = next * (2 * s * e - 32900 * next);
        assert(next_gain >= 1256 * ss) by (nonlinear_arith)
            requires
                next_gain == next * (2 * s * e - 32900 * next),
                0x1000_0000 <= next <= 2 * s + 1,
                ss == s * s,
                s == 0x1_0000_0000,
                e == 42949,
        ;
        assert(false) by (nonlinear_arith)
            requires
                s * (nq + 2 * e * next + e * e) <= (s + 32900) * (nq + 3 * s) + 300 * ss,
                next_gain == next * (2 * s * e - 32900 * next),
                next_gain >= 1256 * ss,
                nq == next * next,
                ss == s * s,
                s == 0x1_0000_0000,
                e == 42949,
        ;
    }
    if by_u >= by_r + e + 1 {
        let low = by_u - e;
        lemma_square_order(by_r + 1, low);
        let lq = low * low;
        assert(lq == uq - 2 * e * by_u + e * e) by (nonlinear_arith)
            requires
                low == by_u - e,
                lq == low * low,
                uq == by_u * by_u,
        ;
        // s * uu <= s * rr + 32900 * uu + 300 * ss, uu >= uq, rr < lq + 3 * s
        assert((s - 32900) * uu <= s * rr + 300 * ss);
        assert((s - 32900) * uq <= (s - 32900) * uu) by (nonlinear_arith)
            requires
                uq <= uu,
                s == 0x1_0000_0000,
        ;
        assert(s * rr <= s * (lq + 3 * s)) by (nonlinear_arith)
            requires
                rr <= lq + 3 * s,
                s == 0x1_0000_0000,
        ;
        assert(false) by (nonlinear_arith)
            requires
                (s - 32900) * uq <= s * (uq - 2 * e * by_u + e * e + 3 * s) + 300 * ss,
                gain == by_u * (2 * s * e - 32900 * by_u),
                gain >= 1256 * ss,
                uq == by_u * by_u,
                ss == s * s,
                s == 0x1_0000_0000,
                e == 42949,
        ;
    }
}

/// Twice a scalar of size under `2^61`, in raw integers.
proof fn lemma_twice(x: Scalar)
    requires
        size(x.raw as int) <= 0x2000_0000_0000_0000,
    ensures
        x.mul(Scalar::spec_from_int(2)).raw == 2 * x.raw,
{
    let two = Scalar::spec_from_int(2);
    assert(two.raw == 0x2_0000_0000);
    assert(x.raw * two.raw == 0x2_0000_0000 * x.raw) by (nonlinear_arith)
        requires
            two.raw == 0x2_0000_0000,
    ;
}

/// What is known of the sum of the squares of a vector's first three
/// components by the length that is found of it.
proof fn lemma_squares_by_length(v: Vector)
    requires
        v.3 == Scalar::zero(),
        size(v.0.raw as int) <= COMPONENT_LIMIT,
        size(v.1.raw as int) <= COMPONENT_LIMIT,
        size(v.2.raw as int) <= COMPONENT_LIMIT,
    ensures
        is_isqrt(v.spec_norm_squared().raw * 0x1_0000_0000, v.spec_magnitude().raw as int),
        0 <= v.spec_norm_squared().raw,
        v.spec_norm_squared().raw * 0x1_0000_0000 <= v.0.raw * v.0.raw + v.1.raw * v.1.raw
            + v.2.raw * v.2.raw < v.spec_norm_squared().raw * 0x1_0000_0000 + 3 * 0x1_0000_0000,
{
    let s = 0x1_0000_0000int;
    let a = size(v.0.raw as int);
    let b = size(v.1.raw as int);
    let c = size(v.2.raw as int);
    lemma_square_raw(v.0);
    lemma_square_raw(v.1);
    lemma_square_raw(v.2);
    lemma_square_quotient(a);
    lemma_square_quotient(b);
    lemma_square_quotient(c);
    assert(a * a <= 0x4000_0000_0000 * 0x4000_0000_0000 && b * b <= 0x4000_0000_0000
        * 0x4000_0000_0000 && c * c <= 0x4000_0000_0000 * 0x4000_0000_0000) by (nonlinear_arith)
        requires
            0 <= a <= 0x4000_0000_0000,
            0 <= b <= 0x4000_0000_0000,
            0 <= c <= 0x4000_0000_0000,
    ;
    assert(v.0.raw * v.0.raw == a * a && v.1.raw * v.1.raw == b * b && v.2.raw * v.2.raw == c * c)
        by (nonlinear_arith)
        requires
            a == size(v.0.raw as int),
            b == size(v.1.raw as int),
            c == size(v.2.raw as int),
    ;
    let q = (a * a) / s + (b * b) / s + (c * c) / s;
    assert(v.spec_norm_squared().raw == q);
    lemma_isqrt_exists(q * s);
    lemma_isqrt_fits(q * s);
    if q == 0 {
        lemma_isqrt_unique(0, 0, isqrt(0));
    }
}

/// A vector mirrored at a vector of length 1 keeps its length within the
/// tolerance. This holds where the mirrored vector has no component larger
/// than 1 and a length that is found to be at least one sixteenth, and the
/// other has a length within the slack of 1.
pub proof fn lemma_reflect_keeps_length(u: Vector, n: Vector)
    requires
        u.3 == Scalar::zero(),
        n.3 == Scalar::zero(),
        size(u.0.raw as int) <= ONE_RAW,
        size(u.1.raw as int) <= ONE_RAW,
        size(u.2.raw as int) <= ONE_RAW,
        size(n.0.raw as int) <= 2 * ONE_RAW,
        size(n.1.raw as int) <= 2 * ONE_RAW,
        size(n.2.raw as int) <= 2 * ONE_RAW,
        ONE_RAW - UNIT_SLACK_UNDER <= n.spec_magnitude().raw <= ONE_RAW + UNIT_SLACK_OVER,
        u.spec_magnitude().raw >= LENGTH_FLOOR,
    ensures
        size(u.spec_reflect(n).spec_magnitude().raw - u.spec_magnitude().raw) <= TOLERANCE_STEPS,
        u.spec_reflect(n).spec_magnitude().approx_eq(u.spec_magnitude()),
        u.spec_reflect(n).3 == Scalar::zero(),
{
    let s = 0x1_0000_0000int;
    let ss = s * s;
    // the normal: the sum of its squares is nearly 2^64
    lemma_squares_by_length(n);
    let nn = n.0.raw * n.0.raw + n.1.raw * n.1.raw + n.2.raw * n.2.raw;
    let by_n = n.spec_magnitude().raw as int;
    assert(ss - 16 * s <= by_n * by_n) by (nonlinear_arith)
        requires
            s - 8 <= by_n,
            ss == s * s,
            s == 0x1_0000_0000,
    ;
    assert((by_n + 1) * (by_n + 1) + 3 * s <= ss + 8198 * s) by (nonlinear_arith)
        requires
            0 <= by_n <= s + 4096,
            ss == s * s,
            s == 0x1_0000_0000,
    ;
    assert(ss - 16 * s <= nn <= ss + 8198 * s);
    // the dot product
    lemma_mul_error(u.0, n.0, s, 2 * s);
    lemma_mul_error(u.1, n.1, s, 2 * s);
    lemma_mul_error(u.2, n.2, s, 2 * s);
    lemma_mul_one_and_zero(Scalar::zero());
    assert(s * (2 * s) == 2 * ss) by (nonlinear_arith)
        requires
            ss == s * s,
    ;
    assert(ss == 0x1_0000_0000_0000_0000) by (nonlinear_arith)
        requires
            ss == s * s,
            s == 0x1_0000_0000,
    ;
    let dot = u.spec_dot(&n);
    let k = dot.raw as int;
    assert(k == u.0.mul(n.0).raw + u.1.mul(n.1).raw + u.2.mul(n.2).raw);
    let d = u.0.raw * n.0.raw + u.1.raw * n.1.raw + u.2.raw * n.2.raw;
    assert(-3 * s < s * k - d < 3 * s);
    assert(-7 * s < k < 7 * s);
    // the steps that the components take
    lemma_twice(n.0);
    lemma_twice(n.1);
    lemma_twice(n.2);
    lemma_twice(n.3);
    let two = Scalar::spec_from_int(2);
    lemma_mul_error(n.0.mul(two), dot, 4 * s, 7 * s);
    lemma_mul_error(n.1.mul(two), dot, 4 * s, 7 * s);
    lemma_mul_error(n.2.mul(two), dot, 4 * s, 7 * s);
    lemma_mul_one_and_zero(dot);
    assert((4 * s) * (7 * s) == 28 * ss) by (nonlinear_arith)
        requires
            ss == s * s,
    ;
    let w0 = n.0.mul(two).mul(dot).raw as int;
    let w1 = n.1.mul(two).mul(dot).raw as int;
    let w2 = n.2.mul(two).mul(dot).raw as int;
    assert((2 * n.0.raw) * k == 2 * n.0.raw * k && (2 * n.1.raw) * k == 2 * n.1.raw * k && (2
        * n.2.raw) * k == 2 * n.2.raw * k) by (nonlinear_arith);
    let r = u.spec_reflect(n);
    assert(r.0.raw == u.0.raw - w0);
    assert(r.1.raw == u.1.raw - w1);
    assert(r.2.raw == u.2.raw - w2);
    assert(r.3 == Scalar::zero());
    lemma_mirror_change(
        u.0.raw as int,
        u.1.raw as int,
        u.2.raw as int,
        n.0.raw as int,
        n.1.raw as int,
        n.2.raw as int,
        k,
        w0,
        w1,
        w2,
    );
    // the two lengths
    lemma_squares_by_length(u);
    lemma_squares_by_length(r);
    let uu = u.0.raw * u.0.raw + u.1.raw * u.1.raw + u.2.raw * u.2.raw;
    let rr = r.0.raw * r.0.raw + r.1.raw * r.1.raw + r.2.raw * r.2.raw;
    lemma_product_bound(u.0.raw as int, u.0.raw as int, s, s);
    lemma_product_bound(u.1.raw as int, u.1.raw as int, s, s);
    lemma_product_bound(u.2.raw as int, u.2.raw as int, s, s);
    assert(0 <= uu) by (nonlinear_arith)
        requires
            uu == u.0.raw * u.0.raw + u.1.raw * u.1.raw + u.2.raw * u.2.raw,
    ;
    lemma_lengths_close(
        uu,
        rr,
        u.spec_norm_squared().raw * s,
        r.spec_norm_squared().raw * s,
        u.spec_magnitude().raw as int,
        r.spec_magnitude().raw as int,
    );
}

/// The least raw size of `d.d`, for the direction `d` of a ray, from which
/// a ray from inside the unit sphere is known to meet it behind and ahead:
/// 1/256.
pub const DIRECTION_FLOOR: i64 = 0x100_0000;

/// The largest raw size of `d.d` for which that is known: 64.
pub const DIRECTION_LIMIT: i64 = 0x40_0000_0000;

/// The largest raw size of `d.o`, for the origin `o` of the ray as a
/// vector, for which that is known: 8.
pub const SLANT_LIMIT: i64 = 0x8_0000_0000;

/// How far, in raw steps, `o.o` has to lie under 1 for that to be known:
/// 1/4096.
pub const INSIDE_MARGIN: i64 = 0x10_0000;

/// The two roots of the sphere's equation for a ray from inside, in raw
/// integers. With `a` the raw `d.d`, `b` twice the raw `d.o` and `c` the raw
/// `o.o - 1`, which is negative: the square root `root` of the discriminant
/// is larger than `b` by at least 129 steps, so that the quotients of
/// `-b - root` and of `-b + root` by `2a` are at most -1 and at least 1.
///
/// Here `bb` is `b * b` over `2^32` and `m` is `4 * a * -c` over `2^32`,
/// both rounded down, so that the discriminant is `bb + m`.
proof fn lemma_inside_roots(a: int, b: int, c: int, bb: int, m: int, root: int)
    requires
        DIRECTION_FLOOR <= a <= DIRECTION_LIMIT,
        -2 * SLANT_LIMIT <= b <= 2 * SLANT_LIMIT,
        -0x1_0000_0000 <= c <= -INSIDE_MARGIN,
        bb == (b * b) / 0x1_0000_0000,
        m == (4 * a * (-c)) / 0x1_0000_0000,
        is_isqrt((bb + m) * 0x1_0000_0000, root),
    ensures
        16384 <= m <= 4 * DIRECTION_LIMIT,
        0 <= bb <= 0x100_0000_0000,
        size(b) + 129 <= root < 0x40_0000_0000,
        ((root + b) * 0x1_0000_0000) / (2 * a) >= 1,
        ((root - b) * 0x1_0000_0000) / (2 * a) >= 1,
{
    let s = 0x1_0000_0000int;
    let n = 4 * a * (-c);
    assert(4 * 0x100_0000 * 0x10_0000 <= n <= 4 * 0x40_0000_0000 * s) by (nonlinear_arith)
        requires
            n == 4 * a * (-c),
            0x100_0000 <= a <= 0x40_0000_0000,
            0x10_0000 <= -c <= s,
            s == 0x1_0000_0000,
    ;
    let reach = size(b);
    lemma_square_quotient(reach);
    assert(b * b == reach * reach) by (nonlinear_arith)
        requires
            reach == size(b),
    ;
    assert(reach * reach <= 0x10_0000_0000 * 0x10_0000_0000) by (nonlinear_arith)
        requires
            0 <= reach <= 0x10_0000_0000,
    ;
    let far = reach + 129;
    assert(far * far == reach * reach + 258 * reach + 16641) by (nonlinear_arith)
        requires
            far == reach + 129,
    ;
    let under = (bb + m) * s;
    assert(under == bb * s + m * s) by (nonlinear_arith)
        requires
            under == (bb + m) * s,
    ;
    assert(far * far <= under);
    lemma_square_order_back(far, root + 1);
    // the root is not large
    assert(under < 0x40_0000_0000 * 0x40_0000_0000) by (nonlinear_arith)
        requires
            under == bb * s + m * s,
            bb <= 0x100_0000_0000,
            m <= 0x100_0000_0000,
            s == 0x1_0000_0000,
    ;
    if root >= 0x40_0000_0000 {
        lemma_square_order(0x40_0000_0000, root);
    }
    // the two quotients
    let twice = 2 * a;
    let up = (root - b) * s;
    let down = (root + b) * s;
    assert(up >= twice && down >= twice) by (nonlinear_arith)
        requires
            up == (root - b) * s,
            down == (root + b) * s,
            root - b >= 129,
            root + b >= 129,
            twice <= 0x80_0000_0000,
            s == 0x1_0000_0000,
    ;
    vstd::arithmetic::div_mod::lemma_fundamental_div_mod(up, twice);
    vstd::arithmetic::div_mod::lemma_mod_bound(up, twice);
    vstd::arithmetic::div_mod::lemma_fundamental_div_mod(down, twice);
    vstd::arithmetic::div_mod::lemma_mod_bound(down, twice);
    assert(up / twice >= 1) by (nonlinear_arith)
        requires
            up == twice * (up / twice) + up % twice,
            0 <= up % twice < twice,
            up >= twice,
            twice > 0,
    ;
    assert(down / twice >= 1) by (nonlinear_arith)
        requires
            down == twice * (down / twice) + down % twice,
            0 <= down % twice < twice,
            down >= twice,
            twice > 0,
    ;
}

/// A ray from inside the unit sphere meets it twice: once behind its origin
/// and once ahead of it. This is proved where the ray starts at least
/// 1/4096 inside, `o.o <= 1 - 1/4096` for its origin `o` as a vector, and
/// its direction `d` is neither very short nor very long: `d.d` between
/// 1/256 and 64, and `d.o` of size 8 at most.
///
/// The results are those of the sphere's equation as it is solved: `a` is
/// `d.d`, `b` is `2 * d.o`, `c` is `o.o - 1`, and the two distances are
/// `(-b - root) / 2a` and `(-b + root) / 2a` for the square root `root` of
/// `b * b - 4 * a * c`.
pub proof fn lemma_from_inside_behind_and_ahead(a: Scalar, slant: Scalar, c: Scalar)
    requires
        DIRECTION_FLOOR <= a.raw <= DIRECTION_LIMIT,
        size(slant.raw as int) <= SLANT_LIMIT,
        -0x1_0000_0000 <= c.raw <= -INSIDE_MARGIN,
    ensures
        ({
            let b = Scalar::spec_from_int(2).mul(slant);
            let discriminant = b.mul(b).sub(Scalar::spec_from_int(4).mul(a).mul(c));
            let root = discriminant.sqrt();
            let twice_a = Scalar::spec_from_int(2).mul(a);
            &&& !discriminant.is_negative()
            &&& b.neg().sub(root).div(twice_a).raw < 0
            &&& b.neg().add(root).div(twice_a).raw > 0
        }),
{
    let s = 0x1_0000_0000int;
    let two = Scalar::spec_from_int(2);
    let four = Scalar::spec_from_int(4);
    assert(two.raw == 0x2_0000_0000 && four.raw == 0x4_0000_0000);
    let b = two.mul(slant);
    assert(two.raw * slant.raw == 0x2_0000_0000 * slant.raw) by (nonlinear_arith)
        requires
            two.raw == 0x2_0000_0000,
    ;
    assert(b.raw == 2 * slant.raw);
    let twice_a = two.mul(a);
    assert(two.raw * a.raw == 0x2_0000_0000 * a.raw) by (nonlinear_arith)
        requires
            two.raw == 0x2_0000_0000,
    ;
    assert(twice_a.raw == 2 * a.raw);
    let four_a = four.mul(a);
    assert(four.raw * a.raw == 0x4_0000_0000 * a.raw) by (nonlinear_arith)
        requires
            four.raw == 0x4_0000_0000,
    ;
    assert(four_a.raw == 4 * a.raw);
    let bb = (b.raw * b.raw) / s;
    let m = (4 * a.raw * (-c.raw)) / s;
    let product = four_a.raw * c.raw;
    assert(product == -(4 * a.raw * (-c.raw))) by (nonlinear_arith)
        requires
            product == four_a.raw * c.raw,
            four_a.raw == 4 * a.raw,
    ;
    assert(0 <= 4 * a.raw * (-c.raw)) by (nonlinear_arith)
        requires
            0 <= a.raw,
            c.raw <= 0,
    ;
    assert(0 <= b.raw * b.raw) by (nonlinear_arith);
    let discriminant = b.mul(b).sub(four_a.mul(c));
    lemma_isqrt_exists((bb + m) * s);
    let root = isqrt((bb + m) * s);
    lemma_inside_roots(a.raw as int, b.raw as int, c.raw as int, bb, m, root);
    assert(four_a.mul(c).raw == -m);
    assert(b.mul(b).raw == bb);
    assert(discriminant.raw == bb + m);
    assert(discriminant.sqrt().raw == root);
    let behind = b.neg().sub(discriminant.sqrt());
    let ahead = b.neg().add(discriminant.sqrt());
    assert(behind.raw == -(root + b.raw));
    assert(ahead.raw == root - b.raw);
    assert(-(behind.raw * s) == (root + b.raw) * s) by (nonlinear_arith)
        requires
            behind.raw == -(root + b.raw),
    ;
    assert(ahead.raw * s == (root - b.raw) * s) by (nonlinear_arith)
        requires
            ahead.raw == root - b.raw,
    ;
    assert(behind.raw * s < 0 && ahead.raw * s >= 0) by (nonlinear_arith)
        requires
            behind.raw < 0,
            ahead.raw > 0,
            s == 0x1_0000_0000,
    ;
    let quotient_behind = ((root + b.raw) * s) / (2 * a.raw);
    let quotient_ahead = ((root - b.raw) * s) / (2 * a.raw);
    assert(quotient_behind <= 0x8000_0000_0000 && quotient_ahead <= 0x8000_0000_0000) by {
        let twice = 2 * a.raw;
        let up = (root - b.raw) * s;
        let down = (root + b.raw) * s;
        assert(up <= 0x80_0000_0000 * s && down <= 0x80_0000_0000 * s) by (nonlinear_arith)
            requires
                up == (root - b.raw) * s,
                down == (root + b.raw) * s,
                0 <= root - b.raw <= 0x80_0000_0000,
                0 <= root + b.raw <= 0x80_0000_0000,
                s == 0x1_0000_0000,
        ;
        vstd::arithmetic::div_mod::lemma_fundamental_div_mod(up, twice);
        vstd::arithmetic::div_mod::lemma_mod_bound(up, twice);
        vstd::arithmetic::div_mod::lemma_fundamental_div_mod(down, twice);
        vstd::arithmetic::div_mod::lemma_mod_bound(down, twice);
        assert(up / twice <= 0x8000_0000_0000) by (nonlinear_arith)
            requires
                up == twice * (up / twice) + up % twice,
                0 <= up % twice,
                up <= 0x80_0000_0000 * s,
                twice >= 0x200_0000,
                s == 0x1_0000_0000,
        ;
        assert(down / twice <= 0x8000_0000_0000) by (nonlinear_arith)
            requires
                down == twice * (down / twice) + down % twice,
                0 <= down % twice,
                down <= 0x80_0000_0000 * s,
                twice >= 0x200_0000,
                s == 0x1_0000_0000,
        ;
    }
    assert(behind.div(twice_a).raw == -quotient_behind);
    assert(ahead.div(twice_a).raw == quotient_ahead);
}

/// The integer square root of a number under `2^94` is under `2^47`.
proof fn lemma_isqrt_fits(n: int)
    requires
        0 <= n < 0x4000_0000_0000_0000_0000_0000,
        is_isqrt(n, isqrt(n)),
    ensures
        0 <= isqrt(n) < 0x8000_0000_0000,
{
    let r = isqrt(n);
    if r >= 0x8000_0000_0000 {
        assert(r * r >= 0x8000_0000_0000 * 0x8000_0000_0000) by (nonlinear_arith)
            requires
                r >= 0x8000_0000_0000,
        ;
    }
}

} // verus!
