use vstd::prelude::*;
use crate::matrices::{Matrix, Row};
use crate::scalar::Scalar;
use crate::tuples::{Point, Vector};

verus! {

/// The matrix of four given rows.
pub open spec fn spec_four_by_four(r0: Row, r1: Row, r2: Row, r3: Row) -> Matrix {
    Matrix { rows: 4, cols: 4, r0, r1, r2, r3 }
}

pub open spec fn spec_translation(x: Scalar, y: Scalar, z: Scalar) -> Matrix {
    spec_four_by_four(
        Row(Scalar::one(), Scalar::zero(), Scalar::zero(), x),
        Row(Scalar::zero(), Scalar::one(), Scalar::zero(), y),
        Row(Scalar::zero(), Scalar::zero(), Scalar::one(), z),
        Row(Scalar::zero(), Scalar::zero(), Scalar::zero(), Scalar::one()),
    )
}

/// The identity with `(x, y, z)` in the last column: it moves a point and
/// leaves a vector as it is.
#[verifier::when_used_as_spec(spec_translation)]
pub fn translation(x: Scalar, y: Scalar, z: Scalar) -> (r: Matrix)
    ensures
        r == spec_translation(x, y, z),
{
    Matrix {
        rows: 4,
        cols: 4,
        r0: Row(Scalar::one(), Scalar::zero(), Scalar::zero(), x),
        r1: Row(Scalar::zero(), Scalar::one(), Scalar::zero(), y),
        r2: Row(Scalar::zero(), Scalar::zero(), Scalar::one(), z),
        r3: Row(Scalar::zero(), Scalar::zero(), Scalar::zero(), Scalar::one()),
    }
}

/// A translation is a transformation: its determinant is one.
pub proof fn lemma_translation_is_transformation(x: Scalar, y: Scalar, z: Scalar)
    ensures
        spec_translation(x, y, z).spec_determinant() == Scalar::one(),
        spec_translation(x, y, z).spec_is_transformation(),
{
    let m = spec_translation(x, y, z);
    crate::matrices::lemma_upper_triangular_determinant(m);
    reveal_with_fuel(Matrix::spec_diagonal_product, 5);
    crate::scalar::lemma_mul_one_and_zero(Scalar::one());
}

/// The cofactors of a translation: one on the diagonal, the negated amounts
/// in the last row, zero elsewhere.
pub open spec fn spec_translation_cofactor(
    x: Scalar,
    y: Scalar,
    z: Scalar,
    row: int,
    col: int,
) -> Scalar {
    if row == col {
        Scalar::one()
    } else if row != 3 {
        Scalar::zero()
    } else if col == 0 {
        x.neg()
    } else if col == 1 {
        y.neg()
    } else {
        z.neg()
    }
}

/// Each cofactor of a translation is the one that is written out.
proof fn lemma_translation_cofactor(x: Scalar, y: Scalar, z: Scalar, row: int, col: int)
    requires
        0 <= row < 4,
        0 <= col < 4,
    ensures
        spec_translation(x, y, z).spec_cofactor(row, col) == spec_translation_cofactor(
            x,
            y,
            z,
            row,
            col,
        ),
{
    let m = spec_translation(x, y, z);
    crate::matrices::lemma_cofactor_written_out(m, row, col);
    let rest = m.spec_submatrix(row, col);
    crate::scalar::lemma_mul_one_and_zero(x);
    crate::scalar::lemma_mul_one_and_zero(y);
    crate::scalar::lemma_mul_one_and_zero(z);
    crate::scalar::lemma_mul_one_and_zero(y.neg());
    crate::scalar::lemma_mul_one_and_zero(Scalar::one());
    crate::scalar::lemma_mul_one_and_zero(Scalar::zero());
    let b = rest.spec_row(1);
    let c = rest.spec_row(2);
    crate::scalar::lemma_mul_one_and_zero(crate::matrices::spec_det2(b.1, b.2, c.1, c.2));
    crate::scalar::lemma_mul_one_and_zero(crate::matrices::spec_det2(b.0, b.2, c.0, c.2).neg());
    crate::scalar::lemma_mul_one_and_zero(crate::matrices::spec_det2(b.0, b.1, c.0, c.1));
}

/// A translation is undone by the translation by the negated amounts: that
/// is its inverse, cell for cell.
pub proof fn lemma_translation_inverse(x: Scalar, y: Scalar, z: Scalar)
    ensures
        spec_translation(x, y, z).spec_inverse() == spec_translation(x.neg(), y.neg(), z.neg()),
{
    let m = spec_translation(x, y, z);
    reveal(Matrix::spec_inverse);
    lemma_translation_is_transformation(x, y, z);
    assert forall|row: int, col: int| 0 <= row < 4 && 0 <= col < 4 implies m.spec_cofactor(
        row,
        col,
    ) == spec_translation_cofactor(x, y, z, row, col) by {
        lemma_translation_cofactor(x, y, z, row, col);
    }
    assert(m.spec_inverse_row(0) == Row(Scalar::one(), Scalar::zero(), Scalar::zero(), x.neg()));
    assert(m.spec_inverse_row(1) == Row(Scalar::zero(), Scalar::one(), Scalar::zero(), y.neg()));
    assert(m.spec_inverse_row(2) == Row(Scalar::zero(), Scalar::zero(), Scalar::one(), z.neg()));
    assert(m.spec_inverse_row(3) == Row(
        Scalar::zero(),
        Scalar::zero(),
        Scalar::zero(),
        Scalar::one(),
    ));
}

/// A translation times its inverse is the identity, to the tolerance, and
/// so is the inverse times the translation.
pub proof fn lemma_translation_times_inverse(x: Scalar, y: Scalar, z: Scalar)
    ensures
        spec_translation(x, y, z).spec_mul(spec_translation(x, y, z).spec_inverse()).spec_approx_eq(
            &Matrix::identity(),
        ),
        spec_translation(x, y, z).spec_inverse().spec_mul(spec_translation(x, y, z)).spec_approx_eq(
            &Matrix::identity(),
        ),
{
    lemma_translation_inverse(x, y, z);
    reveal(Matrix::spec_mul);
    crate::scalar::lemma_mul_one_and_zero(x);
    crate::scalar::lemma_mul_one_and_zero(y);
    crate::scalar::lemma_mul_one_and_zero(z);
    crate::scalar::lemma_mul_one_and_zero(x.neg());
    crate::scalar::lemma_mul_one_and_zero(y.neg());
    crate::scalar::lemma_mul_one_and_zero(z.neg());
    crate::scalar::lemma_mul_one_and_zero(Scalar::one());
    crate::scalar::lemma_mul_one_and_zero(Scalar::zero());
}

/// The determinant of a scaling is the product of its three factors, so a
/// scaling is a transformation where that product is not zero.
pub proof fn lemma_scaling_determinant(x: Scalar, y: Scalar, z: Scalar)
    ensures
        spec_scaling(x, y, z).spec_determinant() == x.mul(y.mul(z)),
        spec_scaling(x, y, z).spec_is_transformation() <==> x.mul(y.mul(z)) != Scalar::zero(),
{
    let m = spec_scaling(x, y, z);
    crate::matrices::lemma_upper_triangular_determinant(m);
    reveal_with_fuel(Matrix::spec_diagonal_product, 5);
    crate::scalar::lemma_mul_one_and_zero(z);
}

pub open spec fn spec_scaling(x: Scalar, y: Scalar, z: Scalar) -> Matrix {
    spec_four_by_four(
        Row(x, Scalar::zero(), Scalar::zero(), Scalar::zero()),
        Row(Scalar::zero(), y, Scalar::zero(), Scalar::zero()),
        Row(Scalar::zero(), Scalar::zero(), z, Scalar::zero()),
        Row(Scalar::zero(), Scalar::zero(), Scalar::zero(), Scalar::one()),
    )
}

/// The matrix with `(x, y, z, 1)` on the diagonal.
#[verifier::when_used_as_spec(spec_scaling)]
pub fn scaling(x: Scalar, y: Scalar, z: Scalar) -> (r: Matrix)
    ensures
        r == spec_scaling(x, y, z),
{
    Matrix {
        rows: 4,
        cols: 4,
        r0: Row(x, Scalar::zero(), Scalar::zero(), Scalar::zero()),
        r1: Row(Scalar::zero(), y, Scalar::zero(), Scalar::zero()),
        r2: Row(Scalar::zero(), Scalar::zero(), z, Scalar::zero()),
        r3: Row(Scalar::zero(), Scalar::zero(), Scalar::zero(), Scalar::one()),
    }
}

/// The inverse of a scaling whose determinant is not zero, cell for cell:
/// on the diagonal the product of the two other factors over the
/// determinant, and one in the last cell.
pub open spec fn spec_scaling_inverse(x: Scalar, y: Scalar, z: Scalar) -> Matrix {
    let det = x.mul(y.mul(z));
    spec_four_by_four(
        Row(y.mul(z).div(det), Scalar::zero(), Scalar::zero(), Scalar::zero()),
        Row(Scalar::zero(), x.mul(z).div(det), Scalar::zero(), Scalar::zero()),
        Row(Scalar::zero(), Scalar::zero(), x.mul(y).div(det), Scalar::zero()),
        Row(Scalar::zero(), Scalar::zero(), Scalar::zero(), Scalar::one()),
    )
}

/// The inverse of a scaling is the matrix that is written out, where the
/// product of the three factors is not zero.
pub proof fn lemma_scaling_inverse(x: Scalar, y: Scalar, z: Scalar)
    requires
        x.mul(y.mul(z)) != Scalar::zero(),
    ensures
        spec_scaling(x, y, z).spec_inverse() == spec_scaling_inverse(x, y, z),
{
    let m = spec_scaling(x, y, z);
    reveal(Matrix::spec_inverse);
    lemma_scaling_determinant(x, y, z);
    crate::matrices::lemma_div_by_itself(x.mul(y.mul(z)));
    crate::matrices::lemma_upper_triangular_determinant(m.spec_submatrix(0, 0));
    crate::matrices::lemma_upper_triangular_determinant(m.spec_submatrix(1, 1));
    crate::matrices::lemma_upper_triangular_determinant(m.spec_submatrix(2, 2));
    crate::matrices::lemma_upper_triangular_determinant(m.spec_submatrix(3, 3));
    reveal_with_fuel(Matrix::spec_diagonal_product, 4);
    crate::scalar::lemma_mul_one_and_zero(x);
    crate::scalar::lemma_mul_one_and_zero(y);
    crate::scalar::lemma_mul_one_and_zero(z);
    assert(m.spec_cofactor(0, 0) == y.mul(z));
    assert(m.spec_cofactor(1, 1) == x.mul(z));
    assert(m.spec_cofactor(2, 2) == x.mul(y));
    assert(m.spec_cofactor(3, 3) == x.mul(y.mul(z)));
    // what is left of a scaling without row `j` and column `i` has a zero
    // row where row `i` was
    crate::matrices::lemma_zero_row_determinant(m.spec_submatrix(1, 0), 0);
    crate::matrices::lemma_zero_row_determinant(m.spec_submatrix(2, 0), 0);
    crate::matrices::lemma_zero_row_determinant(m.spec_submatrix(3, 0), 0);
    crate::matrices::lemma_zero_row_determinant(m.spec_submatrix(0, 1), 0);
    crate::matrices::lemma_zero_row_determinant(m.spec_submatrix(2, 1), 1);
    crate::matrices::lemma_zero_row_determinant(m.spec_submatrix(3, 1), 1);
    crate::matrices::lemma_zero_row_determinant(m.spec_submatrix(0, 2), 1);
    crate::matrices::lemma_zero_row_determinant(m.spec_submatrix(1, 2), 1);
    crate::matrices::lemma_zero_row_determinant(m.spec_submatrix(3, 2), 2);
    crate::matrices::lemma_zero_row_determinant(m.spec_submatrix(0, 3), 2);
    crate::matrices::lemma_zero_row_determinant(m.spec_submatrix(1, 3), 2);
    crate::matrices::lemma_zero_row_determinant(m.spec_submatrix(2, 3), 2);
    let back = spec_scaling_inverse(x, y, z);
    assert(m.spec_inverse_row(0) == back.r0);
    assert(m.spec_inverse_row(1) == back.r1);
    assert(m.spec_inverse_row(2) == back.r2);
    assert(m.spec_inverse_row(3) == back.r3);
}

pub open spec fn spec_rotation_x(r: Scalar) -> Matrix {
    spec_four_by_four(
        Row(Scalar::one(), Scalar::zero(), Scalar::zero(), Scalar::zero()),
        Row(Scalar::zero(), r.cos(), r.sin().neg(), Scalar::zero()),
        Row(Scalar::zero(), r.sin(), r.cos(), Scalar::zero()),
        Row(Scalar::zero(), Scalar::zero(), Scalar::zero(), Scalar::one()),
    )
}

/// The rotation by `r` radians around the x axis.
#[verifier::when_used_as_spec(spec_rotation_x)]
pub fn rotation_x(r: Scalar) -> (m: Matrix)
    ensures
        m == spec_rotation_x(r),
{
    let c = r.cos();
    let s = r.sin();
    Matrix {
        rows: 4,
        cols: 4,
        r0: Row(Scalar::one(), Scalar::zero(), Scalar::zero(), Scalar::zero()),
        r1: Row(Scalar::zero(), c, s.neg(), Scalar::zero()),
        r2: Row(Scalar::zero(), s, c, Scalar::zero()),
        r3: Row(Scalar::zero(), Scalar::zero(), Scalar::zero(), Scalar::one()),
    }
}

pub open spec fn spec_rotation_y(r: Scalar) -> Matrix {
    spec_four_by_four(
        Row(r.cos(), Scalar::zero(), r.sin(), Scalar::zero()),
        Row(Scalar::zero(), Scalar::one(), Scalar::zero(), Scalar::zero()),
        Row(r.sin().neg(), Scalar::zero(), r.cos(), Scalar::zero()),
        Row(Scalar::zero(), Scalar::zero(), Scalar::zero(), Scalar::one()),
    )
}

/// The rotation by `r` radians around the y axis.
#[verifier::when_used_as_spec(spec_rotation_y)]
pub fn rotation_y(r: Scalar) -> (m: Matrix)
    ensures
        m == spec_rotation_y(r),
{
    let c = r.cos();
    let s = r.sin();
    Matrix {
        rows: 4,
        cols: 4,
        r0: Row(c, Scalar::zero(), s, Scalar::zero()),
        r1: Row(Scalar::zero(), Scalar::one(), Scalar::zero(), Scalar::zero()),
        r2: Row(s.neg(), Scalar::zero(), c, Scalar::zero()),
        r3: Row(Scalar::zero(), Scalar::zero(), Scalar::zero(), Scalar::one()),
    }
}

pub open spec fn spec_rotation_z(r: Scalar) -> Matrix {
    spec_four_by_four(
        Row(r.cos(), r.sin().neg(), Scalar::zero(), Scalar::zero()),
        Row(r.sin(), r.cos(), Scalar::zero(), Scalar::zero()),
        Row(Scalar::zero(), Scalar::zero(), Scalar::one(), Scalar::zero()),
        Row(Scalar::zero(), Scalar::zero(), Scalar::zero(), Scalar::one()),
    )
}

/// The rotation by `r` radians around the z axis.
#[verifier::when_used_as_spec(spec_rotation_z)]
pub fn rotation_z(r: Scalar) -> (m: Matrix)
    ensures
        m == spec_rotation_z(r),
{
    let c = r.cos();
    let s = r.sin();
    Matrix {
        rows: 4,
        cols: 4,
        r0: Row(c, s.neg(), Scalar::zero(), Scalar::zero()),
        r1: Row(s, c, Scalar::zero(), Scalar::zero()),
        r2: Row(Scalar::zero(), Scalar::zero(), Scalar::one(), Scalar::zero()),
        r3: Row(Scalar::zero(), Scalar::zero(), Scalar::zero(), Scalar::one()),
    }
}

pub open spec fn spec_shearing(
    x_y: Scalar,
    x_z: Scalar,
    y_x: Scalar,
    y_z: Scalar,
    z_x: Scalar,
    z_y: Scalar,
) -> Matrix {
    spec_four_by_four(
        Row(Scalar::one(), x_y, x_z, Scalar::zero()),
        Row(y_x, Scalar::one(), y_z, Scalar::zero()),
        Row(z_x, z_y, Scalar::one(), Scalar::zero()),
        Row(Scalar::zero(), Scalar::zero(), Scalar::zero(), Scalar::one()),
    )
}

/// The shear that moves each coordinate in proportion to the two others:
/// `x_y` is how far x moves for each unit of y, and so on.
#[verifier::when_used_as_spec(spec_shearing)]
pub fn shearing(x_y: Scalar, x_z: Scalar, y_x: Scalar, y_z: Scalar, z_x: Scalar, z_y: Scalar) -> (r:
    Matrix)
    ensures
        r == spec_shearing(x_y, x_z, y_x, y_z, z_x, z_y),
{
    Matrix {
        rows: 4,
        cols: 4,
        r0: Row(Scalar::one(), x_y, x_z, Scalar::zero()),
        r1: Row(y_x, Scalar::one(), y_z, Scalar::zero()),
        r2: Row(z_x, z_y, Scalar::one(), Scalar::zero()),
        r3: Row(Scalar::zero(), Scalar::zero(), Scalar::zero(), Scalar::one()),
    }
}

/// The matrix whose rows are `left`, `true_up` and the reverse of
/// `forward`, above `(0, 0, 0, 1)`.
pub open spec fn spec_orientation(left: Vector, true_up: Vector, forward: Vector) -> Matrix {
    spec_four_by_four(
        Row(left.0, left.1, left.2, Scalar::zero()),
        Row(true_up.0, true_up.1, true_up.2, Scalar::zero()),
        Row(forward.0.neg(), forward.1.neg(), forward.2.neg(), Scalar::zero()),
        Row(Scalar::zero(), Scalar::zero(), Scalar::zero(), Scalar::one()),
    )
}

#[verifier::opaque]
pub open spec fn spec_view_transform(from: Point, to: Point, up: Vector) -> Matrix {
    let forward = to.sub(from).normalize();
    let left = forward.spec_cross(&up.normalize());
    let true_up = left.spec_cross(&forward);
    spec_orientation(left, true_up, forward).spec_mul(
        spec_translation(from.0.neg(), from.1.neg(), from.2.neg()),
    )
}

/// The transformation of the world as seen by an eye at `from` that looks
/// at `to`, with `up` roughly overhead: the orientation matrix times the
/// translation by the reverse of `from`.
pub fn view_transform(from: Point, to: Point, up: Vector) -> (r: Matrix)
    ensures
        r == spec_view_transform(from, to, up),
        r.rows == 4,
        r.cols == 4,
{
    reveal(spec_view_transform);
    let forward = to.sub(from).normalize();
    let upn = up.normalize();
    let left = forward.cross(&upn);
    let true_up = left.cross(&forward);
    let orientation = Matrix {
        rows: 4,
        cols: 4,
        r0: Row(left.0, left.1, left.2, Scalar::zero()),
        r1: Row(true_up.0, true_up.1, true_up.2, Scalar::zero()),
        r2: Row(forward.0.neg(), forward.1.neg(), forward.2.neg(), Scalar::zero()),
        r3: Row(Scalar::zero(), Scalar::zero(), Scalar::zero(), Scalar::one()),
    };
    orientation.mul(translation(from.0.neg(), from.1.neg(), from.2.neg()))
}

} // verus!
