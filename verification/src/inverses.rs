//! How close a scaling times its inverse comes to the identity.
//!
//! The inverse of a matrix is found with rounded products and quotients, so
//! a matrix times its inverse is the identity only as far as the rounding
//! allows. For a scaling whose factors are neither tiny nor huge that is
//! within the tolerance.

use vstd::prelude::*;
use crate::accuracy::size;
use crate::matrices::Matrix;
use crate::scalar::{lemma_mul_one_and_zero, Scalar};
use crate::transformation::{
    lemma_scaling_determinant, lemma_scaling_inverse, spec_scaling, spec_scaling_inverse,
};

verus! {

/// The least raw size of a factor of a scaling of which
/// `lemma_scaling_times_inverse` speaks: one sixteenth.
pub const FACTOR_FLOOR: i64 = 0x1000_0000;

/// The largest raw size of such a factor: 16.
pub const FACTOR_LIMIT: i64 = 0x10_0000_0000;

/// How far, in raw steps, a factor of a scaling times its cell of the
/// inverse may lie from one.
pub const FACTOR_SLACK: i64 = 8210;

/// Whether the size of a scalar is between one sixteenth and 16.
pub open spec fn is_scaling_factor(x: Scalar) -> bool {
    FACTOR_FLOOR <= size(x.raw as int) <= FACTOR_LIMIT
}

/// What is known of the quotient of a number that is not negative by a
/// positive one.
proof fn lemma_quotient(n: int, d: int)
    requires
        0 <= n,
        0 < d,
    ensures
        0 <= n / d,
        (n / d) * d <= n,
        n < (n / d) * d + d,
{
    vstd::arithmetic::div_mod::lemma_fundamental_div_mod(n, d);
    vstd::arithmetic::div_mod::lemma_mod_bound(n, d);
    vstd::arithmetic::div_mod::lemma_div_pos_is_pos(n, d);
    assert((n / d) * d == d * (n / d)) by (nonlinear_arith);
}

/// A factor `x` times the quotient of `n * 2^32` by `q` is `2^32` within
/// the slack, where `x * n` is `q * 2^32` within 8192 parts in `2^32`.
proof fn lemma_back_to_one(x: int, n: int, q: int)
    requires
        0x1000_0000 <= x <= 0x10_0000_0000,
        0 <= n,
        0 < q,
        q * 0xffff_e000 < x * n,
        x * n < q * 0x1_0000_2000,
    ensures
        0 < (n * 0x1_0000_0000) / q < 0x80_0000_0000,
        0x1_0000_0000 - 8210 < (x * ((n * 0x1_0000_0000) / q)) / 0x1_0000_0000,
        (x * ((n * 0x1_0000_0000) / q)) / 0x1_0000_0000 < 0x1_0000_0000 + 8192,
{
    let r = (n * 0x1_0000_0000) / q;
    let w = x * n;
    let xr = x * r;
    lemma_quotient(n * 0x1_0000_0000, q);
    assert(xr * q <= w * 0x1_0000_0000) by (nonlinear_arith)
        requires
            r * q <= n * 0x1_0000_0000,
            0 < x,
            xr == x * r,
            w == x * n,
    ;
    assert(w * 0x1_0000_0000 < (xr + x) * q) by (nonlinear_arith)
        requires
            n * 0x1_0000_0000 < r * q + q,
            0 < x,
            xr == x * r,
            w == x * n,
    ;
    assert(xr < 0x1_0000_2000 * 0x1_0000_0000) by (nonlinear_arith)
        requires
            xr * q <= w * 0x1_0000_0000,
            w < q * 0x1_0000_2000,
            0 < q,
    ;
    assert(xr + x > 0xffff_e000 * 0x1_0000_0000) by (nonlinear_arith)
        requires
            w * 0x1_0000_0000 < (xr + x) * q,
            q * 0xffff_e000 < w,
            0 < q,
    ;
    assert(r < 0x80_0000_0000) by (nonlinear_arith)
        requires
            xr == x * r,
            xr < 0x1_0000_2000 * 0x1_0000_0000,
            0x1000_0000 <= x,
            0 <= r,
    ;
    assert(0 < r) by (nonlinear_arith)
        requires
            xr == x * r,
            0 < xr,
            0 < x,
    ;
}

/// The shares of a scaling of factors of raw sizes `a`, `b`, `c`: each
/// factor times the product of the two others is the determinant times
/// `2^32` within 8192 parts in `2^32`, and the determinant is at least
/// `2^20`.
proof fn lemma_scaling_shares(a: int, b: int, c: int)
    requires
        0x1000_0000 <= a <= 0x10_0000_0000,
        0x1000_0000 <= b <= 0x10_0000_0000,
        0x1000_0000 <= c <= 0x10_0000_0000,
    ensures
        ({
            let p = (b * c) / 0x1_0000_0000;
            let s = (a * c) / 0x1_0000_0000;
            let u = (a * b) / 0x1_0000_0000;
            let q = (a * p) / 0x1_0000_0000;
            &&& 0x100_0000 <= p <= 0x100_0000_0000
            &&& 0x100_0000 <= s <= 0x100_0000_0000
            &&& 0x100_0000 <= u <= 0x100_0000_0000
            &&& 0x10_0000 <= q <= 0x1000_0000_0000
            &&& q * 0xffff_e000 < a * p < q * 0x1_0000_2000
            &&& q * 0xffff_e000 < b * s < q * 0x1_0000_2000
            &&& q * 0xffff_e000 < c * u < q * 0x1_0000_2000
        }),
{
    let bc = b * c;
    let ac = a * c;
    let ab = a * b;
    let p = bc / 0x1_0000_0000;
    let s = ac / 0x1_0000_0000;
    let u = ab / 0x1_0000_0000;
    let w = a * p;
    let q = w / 0x1_0000_0000;
    let all = a * bc;
    lemma_pair(b, c);
    lemma_pair(a, c);
    lemma_pair(a, b);
    assert(0x1000_0000 * 0x100_0000 <= w <= 0x10_0000_0000 * 0x100_0000_0000) by (nonlinear_arith)
        requires
            w == a * p,
            0x1000_0000 <= a <= 0x10_0000_0000,
            0x100_0000 <= p <= 0x100_0000_0000,
    ;
    assert(a * 0x100_0000 <= w) by (nonlinear_arith)
        requires
            w == a * p,
            0 < a,
            0x100_0000 <= p,
    ;
    // the three products of a factor and a share, times `2^32`, against
    // the product of all three factors
    lemma_share(a, bc, p);
    lemma_share(b, ac, s);
    lemma_share(c, ab, u);
    assert(b * ac == all && c * ab == all) by (nonlinear_arith)
        requires
            ac == a * c,
            ab == a * b,
            bc == b * c,
            all == a * bc,
    ;
    assert(q * 0x1_0000_0000 <= w < q * 0x1_0000_0000 + 0x1_0000_0000);
    assert(0x10_0000 <= q <= 0x1000_0000_0000);
    assert(q * 0xffff_e000 < a * p < q * 0x1_0000_2000);
    assert(b * 0x100_0000_0000_0000 <= all) by (nonlinear_arith)
        requires
            all == b * ac,
            0 < b,
            0x100_0000_0000_0000 <= ac,
    ;
    assert(c * 0x100_0000_0000_0000 <= all) by (nonlinear_arith)
        requires
            all == c * ab,
            0 < c,
            0x100_0000_0000_0000 <= ab,
    ;
    let ws = b * s;
    let wu = c * u;
    assert(ws * 0x1_0000_0000 <= all < ws * 0x1_0000_0000 + b * 0x1_0000_0000);
    assert(wu * 0x1_0000_0000 <= all < wu * 0x1_0000_0000 + c * 0x1_0000_0000);
    assert(w * 0x1_0000_0000 <= all < w * 0x1_0000_0000 + a * 0x1_0000_0000);
    assert(ws < q * 0x1_0000_0000 + 0x1_0000_0000 + a);
    assert(ws > q * 0x1_0000_0000 - b);
    assert(a + 0x1_0000_0000 <= 8192 * q);
    assert(b <= 8192 * q);
    assert(c <= 8192 * q);
    assert(q * 0xffff_e000 < ws < q * 0x1_0000_2000);
    assert(q * 0xffff_e000 < wu < q * 0x1_0000_2000);
}

/// The product of two raw sizes between one sixteenth and 16, and its
/// quotient by `2^32`.
proof fn lemma_pair(x: int, y: int)
    requires
        0x1000_0000 <= x <= 0x10_0000_0000,
        0x1000_0000 <= y <= 0x10_0000_0000,
    ensures
        0x100_0000_0000_0000 <= x * y <= 0x100_0000_0000_0000_0000,
        0x100_0000 <= (x * y) / 0x1_0000_0000 <= 0x100_0000_0000,
{
    assert(0x1000_0000 * 0x1000_0000 <= x * y <= 0x10_0000_0000 * 0x10_0000_0000)
        by (nonlinear_arith)
        requires
            0x1000_0000 <= x <= 0x10_0000_0000,
            0x1000_0000 <= y <= 0x10_0000_0000,
    ;
}

/// A factor `x` times the quotient `share` of `rest` by `2^32`, times
/// `2^32`, is `x * rest` but for less than `x * 2^32`.
proof fn lemma_share(x: int, rest: int, share: int)
    requires
        0 < x,
        0 <= rest,
        share == rest / 0x1_0000_0000,
    ensures
        (x * share) * 0x1_0000_0000 <= x * rest,
        x * rest < (x * share) * 0x1_0000_0000 + x * 0x1_0000_0000,
{
    assert((x * share) * 0x1_0000_0000 <= x * rest) by (nonlinear_arith)
        requires
            share * 0x1_0000_0000 <= rest,
            0 < x,
    ;
    assert(x * rest < (x * share) * 0x1_0000_0000 + x * 0x1_0000_0000) by (nonlinear_arith)
        requires
            rest < share * 0x1_0000_0000 + 0x1_0000_0000,
            0 < x,
    ;
}

/// The raw integer of a product is the product of the sizes over `2^32`,
/// negated where the signs differ, where neither size is over `2^47`.
proof fn lemma_mul_sizes(x: Scalar, y: Scalar)
    requires
        size(x.raw as int) <= 0x8000_0000_0000,
        size(y.raw as int) <= 0x8000_0000_0000,
    ensures
        x.mul(y).raw == if (x.raw < 0) == (y.raw < 0) {
            (size(x.raw as int) * size(y.raw as int)) / 0x1_0000_0000
        } else {
            -((size(x.raw as int) * size(y.raw as int)) / 0x1_0000_0000)
        },
{
    let a = size(x.raw as int);
    let b = size(y.raw as int);
    let n = x.raw * y.raw;
    assert(0 <= a * b <= 0x8000_0000_0000 * 0x8000_0000_0000) by (nonlinear_arith)
        requires
            0 <= a <= 0x8000_0000_0000,
            0 <= b <= 0x8000_0000_0000,
    ;
    assert(n == if (x.raw < 0) == (y.raw < 0) {
        a * b
    } else {
        -(a * b)
    }) by (nonlinear_arith)
        requires
            n == x.raw * y.raw,
            a == size(x.raw as int),
            b == size(y.raw as int),
    ;
}

/// The raw integer of a quotient is the size of the dividend times `2^32`
/// over the size of the divisor, negated where the signs differ, where the
/// dividend's size is not over `2^47` and the divisor's not under `2^17`.
proof fn lemma_div_sizes(x: Scalar, y: Scalar)
    requires
        size(x.raw as int) <= 0x8000_0000_0000,
        size(y.raw as int) >= 0x2_0000,
    ensures
        x.div(y).raw == if (x.raw < 0) == (y.raw < 0) {
            (size(x.raw as int) * 0x1_0000_0000) / size(y.raw as int)
        } else {
            -((size(x.raw as int) * 0x1_0000_0000) / size(y.raw as int))
        },
{
    let a = size(x.raw as int);
    let d = size(y.raw as int);
    let r = (a * 0x1_0000_0000) / d;
    lemma_quotient(a * 0x1_0000_0000, d);
    assert(r <= 0x4000_0000_0000_0000) by (nonlinear_arith)
        requires
            r * d <= a * 0x1_0000_0000,
            a <= 0x8000_0000_0000,
            d >= 0x2_0000,
            0 <= r,
    ;
}

/// A factor of a scaling times its cell of the inverse is one within the
/// slack, whichever of the two comes first. Here `rest` is the product of
/// the two other factors and `det` the determinant.
proof fn lemma_factor_times_cell(f: Scalar, rest: Scalar, det: Scalar)
    requires
        is_scaling_factor(f),
        size(rest.raw as int) <= 0x100_0000_0000,
        0x10_0000 <= size(det.raw as int),
        (det.raw < 0) == ((f.raw < 0) != (rest.raw < 0)),
        size(det.raw as int) * 0xffff_e000 < size(f.raw as int) * size(rest.raw as int),
        size(f.raw as int) * size(rest.raw as int) < size(det.raw as int)
            * 0x1_0000_2000,
    ensures
        0x1_0000_0000 - FACTOR_SLACK < f.mul(rest.div(det)).raw < 0x1_0000_0000 + FACTOR_SLACK,
        rest.div(det).mul(f) == f.mul(rest.div(det)),
{
    let x = size(f.raw as int);
    let n = size(rest.raw as int);
    let q = size(det.raw as int);
    lemma_back_to_one(x, n, q);
    lemma_div_sizes(rest, det);
    let cell = rest.div(det);
    assert(size(cell.raw as int) == (n * 0x1_0000_0000) / q);
    lemma_mul_sizes(f, cell);
    assert(cell.raw * f.raw == f.raw * cell.raw) by (nonlinear_arith);
}

/// A scaling times its inverse is the identity within the tolerance, and
/// so is the inverse times the scaling, where the size of each factor is
/// between one sixteenth and 16. Such a scaling is a transformation.
pub proof fn lemma_scaling_times_inverse(x: Scalar, y: Scalar, z: Scalar)
    requires
        is_scaling_factor(x),
        is_scaling_factor(y),
        is_scaling_factor(z),
    ensures
        spec_scaling(x, y, z).spec_is_transformation(),
        spec_scaling(x, y, z).spec_mul(spec_scaling(x, y, z).spec_inverse()).spec_approx_eq(
            &Matrix::identity(),
        ),
        spec_scaling(x, y, z).spec_inverse().spec_mul(spec_scaling(x, y, z)).spec_approx_eq(
            &Matrix::identity(),
        ),
{
    let det = x.mul(y.mul(z));
    lemma_scaling_shares(size(x.raw as int), size(y.raw as int), size(z.raw as int));
    lemma_mul_sizes(y, z);
    lemma_mul_sizes(x, z);
    lemma_mul_sizes(x, y);
    lemma_mul_sizes(x, y.mul(z));
    lemma_scaling_determinant(x, y, z);
    lemma_scaling_inverse(x, y, z);
    lemma_factor_times_cell(x, y.mul(z), det);
    lemma_factor_times_cell(y, x.mul(z), det);
    lemma_factor_times_cell(z, x.mul(y), det);
    let m = spec_scaling(x, y, z);
    let back = spec_scaling_inverse(x, y, z);
    reveal(Matrix::spec_mul);
    lemma_mul_one_and_zero(x);
    lemma_mul_one_and_zero(y);
    lemma_mul_one_and_zero(z);
    lemma_mul_one_and_zero(y.mul(z).div(det));
    lemma_mul_one_and_zero(x.mul(z).div(det));
    lemma_mul_one_and_zero(x.mul(y).div(det));
    lemma_mul_one_and_zero(Scalar::one());
    lemma_mul_one_and_zero(Scalar::zero());
    assert(m.spec_mul(back).spec_row_approx_eq(Matrix::identity(), 0));
    assert(m.spec_mul(back).spec_row_approx_eq(Matrix::identity(), 1));
    assert(m.spec_mul(back).spec_row_approx_eq(Matrix::identity(), 2));
    assert(m.spec_mul(back).spec_row_approx_eq(Matrix::identity(), 3));
    assert(back.spec_mul(m).spec_row_approx_eq(Matrix::identity(), 0));
    assert(back.spec_mul(m).spec_row_approx_eq(Matrix::identity(), 1));
    assert(back.spec_mul(m).spec_row_approx_eq(Matrix::identity(), 2));
    assert(back.spec_mul(m).spec_row_approx_eq(Matrix::identity(), 3));
}

} // verus!
