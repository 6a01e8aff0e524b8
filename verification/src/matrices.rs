use vstd::prelude::*;
use vstd::std_specs::cmp::PartialEqSpecImpl;
use crate::scalar::{lemma_mul_one_and_zero, raw_mul, sat, spec_raw, Scalar};
use crate::tuples::{Point, Vector};

verus! {

/// One row of a matrix: four cells, of which a matrix with fewer columns
/// uses the first ones.
#[derive(Debug, Clone, Copy)]
pub struct Row(pub Scalar, pub Scalar, pub Scalar, pub Scalar);

/// A matrix of one to four rows and one to four columns.
///
/// The cells are held in four rows of four. Every operation reads a cell
/// outside `rows` x `cols` as zero, and writes zero there.
#[derive(Debug, Clone, Copy)]
pub struct Matrix {
    pub rows: usize,
    pub cols: usize,
    pub r0: Row,
    pub r1: Row,
    pub r2: Row,
    pub r3: Row,
}

/// The index in a matrix of row or column `i` of the matrix that is left
/// when row or column `removed` is taken out.
pub open spec fn spec_skip(i: int, removed: int) -> int {
    if i < removed {
        i
    } else {
        i + 1
    }
}

fn skip(i: usize, removed: usize) -> (r: usize)
    requires
        i < 4,
    ensures
        r == spec_skip(i as int, removed as int),
{
    if i < removed {
        i
    } else {
        i + 1
    }
}

fn cell_of(row: &Vec<Scalar>, j: usize) -> (r: Scalar)
    ensures
        r == (if j < row.len() {
            row[j as int]
        } else {
            Scalar::zero()
        }),
{
    if j < row.len() {
        row[j]
    } else {
        Scalar::zero()
    }
}

fn row_of(data: &Vec<Vec<Scalar>>, i: usize) -> (r: Row)
    ensures
        forall|j: int|
            0 <= j < 4 ==> #[trigger] r.spec_get(j) == (if i < data.len() && j < data[i as int].len() {
                data[i as int][j]
            } else {
                Scalar::zero()
            }),
{
    if i < data.len() {
        Row(cell_of(&data[i], 0), cell_of(&data[i], 1), cell_of(&data[i], 2), cell_of(&data[i], 3))
    } else {
        Row::zero()
    }
}

impl Row {
    pub open spec fn spec_zero() -> Row {
        Row(Scalar::zero(), Scalar::zero(), Scalar::zero(), Scalar::zero())
    }

    #[verifier::when_used_as_spec(spec_zero)]
    pub fn zero() -> (r: Row)
        ensures
            r == Row::spec_zero(),
    {
        Row(Scalar::zero(), Scalar::zero(), Scalar::zero(), Scalar::zero())
    }

    /// The cell in column `j`, and zero where there is no such column.
    pub open spec fn spec_get(self, j: int) -> Scalar {
        if j == 0 {
            self.0
        } else if j == 1 {
            self.1
        } else if j == 2 {
            self.2
        } else if j == 3 {
            self.3
        } else {
            Scalar::zero()
        }
    }

    pub fn get(self, j: usize) -> (r: Scalar)
        ensures
            r == self.spec_get(j as int),
    {
        if j == 0 {
            self.0
        } else if j == 1 {
            self.1
        } else if j == 2 {
            self.2
        } else if j == 3 {
            self.3
        } else {
            Scalar::zero()
        }
    }

    /// The sum of the products of the cells, column by column.
    pub open spec fn spec_dot(self, o: Row) -> Scalar {
        self.0.mul(o.0).add(self.1.mul(o.1)).add(self.2.mul(o.2)).add(self.3.mul(o.3))
    }

    #[verifier::when_used_as_spec(spec_dot)]
    pub fn dot(self, o: Row) -> (r: Scalar)
        ensures
            r == self.spec_dot(o),
    {
        self.0.mul(o.0).add(self.1.mul(o.1)).add(self.2.mul(o.2)).add(self.3.mul(o.3))
    }
}

impl Matrix {
    /// The cell as it is held, whether or not it lies inside the matrix.
    pub open spec fn spec_held(self, i: int, j: int) -> Scalar {
        if i == 0 {
            self.r0.spec_get(j)
        } else if i == 1 {
            self.r1.spec_get(j)
        } else if i == 2 {
            self.r2.spec_get(j)
        } else if i == 3 {
            self.r3.spec_get(j)
        } else {
            Scalar::zero()
        }
    }

    /// The cell in row `i` and column `j`, and zero outside the matrix.
    pub open spec fn spec_get(self, i: int, j: int) -> Scalar {
        if 0 <= i < self.rows && 0 <= j < self.cols {
            self.spec_held(i, j)
        } else {
            Scalar::zero()
        }
    }

    /// The cell in row `i` and column `j`, and zero outside the matrix.
    pub fn get(&self, i: usize, j: usize) -> (r: Scalar)
        ensures
            r == self.spec_get(i as int, j as int),
    {
        if i < self.rows && j < self.cols {
            if i == 0 {
                self.r0.get(j)
            } else if i == 1 {
                self.r1.get(j)
            } else if i == 2 {
                self.r2.get(j)
            } else if i == 3 {
                self.r3.get(j)
            } else {
                Scalar::zero()
            }
        } else {
            Scalar::zero()
        }
    }

    /// Row `i`, with zero outside the matrix.
    pub open spec fn spec_row(self, i: int) -> Row {
        Row(self.spec_get(i, 0), self.spec_get(i, 1), self.spec_get(i, 2), self.spec_get(i, 3))
    }

    pub fn row(&self, i: usize) -> (r: Row)
        ensures
            r == self.spec_row(i as int),
    {
        Row(self.get(i, 0), self.get(i, 1), self.get(i, 2), self.get(i, 3))
    }

    /// Column `j` as a row, with zero outside the matrix.
    pub open spec fn spec_col(self, j: int) -> Row {
        Row(self.spec_get(0, j), self.spec_get(1, j), self.spec_get(2, j), self.spec_get(3, j))
    }

    pub fn col(&self, j: usize) -> (r: Row)
        ensures
            r == self.spec_col(j as int),
    {
        Row(self.get(0, j), self.get(1, j), self.get(2, j), self.get(3, j))
    }

    /// The sizes are between one and four, and every cell that is held
    /// outside the matrix is zero.
    pub open spec fn well_formed(self) -> bool {
        &&& 1 <= self.rows <= 4
        &&& 1 <= self.cols <= 4
        &&& forall|i: int, j: int|
            0 <= i < 4 && 0 <= j < 4 ==> #[trigger] self.spec_held(i, j) == self.spec_get(i, j)
    }

    pub open spec fn is_square(self) -> bool {
        self.rows == self.cols
    }

    /// Every cell of the first column is zero.
    pub open spec fn first_column_is_zero(self) -> bool {
        &&& self.spec_get(0, 0) == Scalar::zero()
        &&& self.spec_get(1, 0) == Scalar::zero()
        &&& self.spec_get(2, 0) == Scalar::zero()
        &&& self.spec_get(3, 0) == Scalar::zero()
    }

    /// Every cell under the diagonal is zero.
    pub open spec fn is_upper_triangular(self) -> bool {
        &&& self.spec_get(1, 0) == Scalar::zero()
        &&& self.spec_get(2, 0) == Scalar::zero()
        &&& self.spec_get(3, 0) == Scalar::zero()
        &&& self.spec_get(2, 1) == Scalar::zero()
        &&& self.spec_get(3, 1) == Scalar::zero()
        &&& self.spec_get(3, 2) == Scalar::zero()
    }

    /// The product of the diagonal from cell `from` on: the last cell, times
    /// the one before it, and so on up.
    pub open spec fn spec_diagonal_product(self, from: int) -> Scalar
        decreases self.rows - from,
    {
        if from + 1 >= self.rows {
            self.spec_get(from, from)
        } else {
            self.spec_get(from, from).mul(self.spec_diagonal_product(from + 1))
        }
    }

    /// The matrix of the given rows, which must all have the same length.
    pub fn from_vec(data: Vec<Vec<Scalar>>) -> (r: Matrix)
        requires
            1 <= data.len() <= 4,
            1 <= data[0].len() <= 4,
            forall|i: int| 0 <= i < data.len() ==> #[trigger] data[i].len() == data[0].len(),
        ensures
            r.rows == data.len(),
            r.cols == data[0].len(),
            r.well_formed(),
            forall|i: int, j: int|
                0 <= i < r.rows && 0 <= j < r.cols ==> #[trigger] r.spec_get(i, j) == data[i][j],
    {
        let rows = data.len();
        let cols = data[0].len();
        let r = Matrix {
            rows,
            cols,
            r0: row_of(&data, 0),
            r1: row_of(&data, 1),
            r2: row_of(&data, 2),
            r3: row_of(&data, 3),
        };
        proof {
            assert forall|i: int, j: int| 0 <= i < 4 && 0 <= j < 4 implies #[trigger] r.spec_held(
                i,
                j,
            ) == r.spec_get(i, j) by {
                assert(data[i].len() == data[0].len() || i >= data.len());
            }
            assert forall|i: int, j: int| 0 <= i < r.rows && 0 <= j < r.cols implies #[trigger] r.spec_get(
                i,
                j,
            ) == data[i][j] by {
                assert(data[i].len() == data[0].len());
            }
        }
        r
    }

    /// The cell in row `row` and column `col`.
    pub fn at(&self, row: usize, col: usize) -> (r: Scalar)
        requires
            row < self.rows,
            col < self.cols,
        ensures
            r == self.spec_get(row as int, col as int),
    {
        self.get(row, col)
    }

    pub open spec fn spec_identity() -> Matrix {
        Matrix {
            rows: 4,
            cols: 4,
            r0: Row(Scalar::one(), Scalar::zero(), Scalar::zero(), Scalar::zero()),
            r1: Row(Scalar::zero(), Scalar::one(), Scalar::zero(), Scalar::zero()),
            r2: Row(Scalar::zero(), Scalar::zero(), Scalar::one(), Scalar::zero()),
            r3: Row(Scalar::zero(), Scalar::zero(), Scalar::zero(), Scalar::one()),
        }
    }

    /// The 4 x 4 identity.
    #[verifier::when_used_as_spec(spec_identity)]
    pub fn identity() -> (r: Matrix)
        ensures
            r == Matrix::spec_identity(),
    {
        Matrix {
            rows: 4,
            cols: 4,
            r0: Row(Scalar::one(), Scalar::zero(), Scalar::zero(), Scalar::zero()),
            r1: Row(Scalar::zero(), Scalar::one(), Scalar::zero(), Scalar::zero()),
            r2: Row(Scalar::zero(), Scalar::zero(), Scalar::one(), Scalar::zero()),
            r3: Row(Scalar::zero(), Scalar::zero(), Scalar::zero(), Scalar::one()),
        }
    }

    pub open spec fn spec_transpose(self) -> Matrix {
        Matrix {
            rows: self.cols,
            cols: self.rows,
            r0: self.spec_col(0),
            r1: self.spec_col(1),
            r2: self.spec_col(2),
            r3: self.spec_col(3),
        }
    }

    /// The matrix whose rows are this one's columns.
    #[verifier::when_used_as_spec(spec_transpose)]
    pub fn transpose(self) -> (r: Matrix)
        ensures
            r == self.spec_transpose(),
    {
        Matrix {
            rows: self.cols,
            cols: self.rows,
            r0: self.col(0),
            r1: self.col(1),
            r2: self.col(2),
            r3: self.col(3),
        }
    }

    /// Row `i` of the matrix that is left when row `row` and column `col`
    /// are taken out.
    pub open spec fn spec_submatrix_row(self, row: int, col: int, i: int) -> Row {
        let from = spec_skip(i, row);
        Row(
            self.spec_get(from, spec_skip(0, col)),
            self.spec_get(from, spec_skip(1, col)),
            self.spec_get(from, spec_skip(2, col)),
            self.spec_get(from, spec_skip(3, col)),
        )
    }

    fn submatrix_row(&self, row: usize, col: usize, i: usize) -> (r: Row)
        requires
            i < 4,
        ensures
            r == self.spec_submatrix_row(row as int, col as int, i as int),
    {
        let from = skip(i, row);
        Row(
            self.get(from, skip(0, col)),
            self.get(from, skip(1, col)),
            self.get(from, skip(2, col)),
            self.get(from, skip(3, col)),
        )
    }

    pub open spec fn spec_submatrix(self, row: int, col: int) -> Matrix {
        Matrix {
            rows: (self.rows - 1) as usize,
            cols: (self.cols - 1) as usize,
            r0: self.spec_submatrix_row(row, col, 0),
            r1: self.spec_submatrix_row(row, col, 1),
            r2: self.spec_submatrix_row(row, col, 2),
            r3: self.spec_submatrix_row(row, col, 3),
        }
    }

    /// The matrix that is left when row `row` and column `col` are taken
    /// out.
    pub fn submatrix(&self, row: usize, col: usize) -> (r: Matrix)
        requires
            2 <= self.rows <= 4,
            2 <= self.cols <= 4,
            row < self.rows,
            col < self.cols,
        ensures
            r == self.spec_submatrix(row as int, col as int),
            r.rows == self.rows - 1,
            r.cols == self.cols - 1,
    {
        Matrix {
            rows: self.rows - 1,
            cols: self.cols - 1,
            r0: self.submatrix_row(row, col, 0),
            r1: self.submatrix_row(row, col, 1),
            r2: self.submatrix_row(row, col, 2),
            r3: self.submatrix_row(row, col, 3),
        }
    }

    /// The determinant of a square matrix of two to four rows: `ad - bc`
    /// for two rows, else the sum along row 0 of each cell times its
    /// cofactor.
    pub open spec fn spec_determinant(self) -> Scalar
        decreases self.rows, 2int,
    {
        if self.rows <= 2 {
            self.spec_get(0, 0).mul(self.spec_get(1, 1)).sub(
                self.spec_get(0, 1).mul(self.spec_get(1, 0)),
            )
        } else {
            let sum = self.spec_get(0, 0).mul(self.spec_cofactor(0, 0)).add(
                self.spec_get(0, 1).mul(self.spec_cofactor(0, 1)),
            ).add(self.spec_get(0, 2).mul(self.spec_cofactor(0, 2)));
            if self.cols > 3 {
                sum.add(self.spec_get(0, 3).mul(self.spec_cofactor(0, 3)))
            } else {
                sum
            }
        }
    }

    /// The determinant of the matrix without row `row` and column `col`.
    pub open spec fn spec_minor(self, row: int, col: int) -> Scalar
        decreases self.rows, 0int,
    {
        if self.rows > 2 {
            self.spec_submatrix(row, col).spec_determinant()
        } else {
            Scalar::zero()
        }
    }

    /// The minor, negated where `row + col` is odd.
    pub open spec fn spec_cofactor(self, row: int, col: int) -> Scalar
        decreases self.rows, 1int,
    {
        if (row + col) % 2 == 0 {
            self.spec_minor(row, col)
        } else {
            self.spec_minor(row, col).neg()
        }
    }

    /// The determinant of a square matrix of two to four rows.
    pub fn determinant(&self) -> (r: Scalar)
        requires
            self.is_square(),
            2 <= self.rows <= 4,
        ensures
            r == self.spec_determinant(),
        decreases self.rows, 2int,
    {
        if self.rows == 2 {
            self.at(0, 0).mul(self.at(1, 1)).sub(self.at(0, 1).mul(self.at(1, 0)))
        } else {
            let sum = self.at(0, 0).mul(self.cofactor(0, 0)).add(
                self.at(0, 1).mul(self.cofactor(0, 1)),
            ).add(self.at(0, 2).mul(self.cofactor(0, 2)));
            if self.cols > 3 {
                sum.add(self.at(0, 3).mul(self.cofactor(0, 3)))
            } else {
                sum
            }
        }
    }

    /// The determinant of the matrix without row `row` and column `col`.
    pub fn minor(&self, row: usize, col: usize) -> (r: Scalar)
        requires
            self.is_square(),
            3 <= self.rows <= 4,
            row < self.rows,
            col < self.cols,
        ensures
            r == self.spec_minor(row as int, col as int),
        decreases self.rows, 0int,
    {
        self.submatrix(row, col).determinant()
    }

    /// The minor, negated where `row + col` is odd.
    pub fn cofactor(&self, row: usize, col: usize) -> (r: Scalar)
        requires
            self.is_square(),
            3 <= self.rows <= 4,
            row < self.rows,
            col < self.cols,
        ensures
            r == self.spec_cofactor(row as int, col as int),
        decreases self.rows, 1int,
    {
        if (row + col) % 2 == 0 {
            self.minor(row, col)
        } else {
            self.minor(row, col).neg()
        }
    }

    pub open spec fn spec_is_invertible(self) -> bool {
        self.spec_determinant() != Scalar::zero()
    }

    /// Whether the determinant is not zero.
    pub fn is_invertible(&self) -> (r: bool)
        requires
            self.is_square(),
            2 <= self.rows <= 4,
        ensures
            r == self.spec_is_invertible(),
    {
        self.determinant().raw != 0
    }

    /// A 4 x 4 matrix with an inverse: what a transformation has to be.
    pub open spec fn spec_is_transformation(self) -> bool {
        self.rows == 4 && self.cols == 4 && self.spec_is_invertible()
    }

    /// Whether this is a 4 x 4 matrix with an inverse.
    pub fn is_transformation(&self) -> (r: bool)
        ensures
            r == self.spec_is_transformation(),
    {
        self.rows == 4 && self.cols == 4 && self.is_invertible()
    }

    /// The cell of the inverse in row `i` and column `j`: the cofactor of
    /// the mirrored cell over the determinant.
    pub open spec fn spec_inverse_cell(self, i: int, j: int) -> Scalar {
        if 0 <= i < self.rows && 0 <= j < self.cols {
            self.spec_cofactor(j, i).div(self.spec_determinant())
        } else {
            Scalar::zero()
        }
    }

    fn inverse_cell(&self, det: Scalar, i: usize, j: usize) -> (r: Scalar)
        requires
            self.is_square(),
            3 <= self.rows <= 4,
            det == self.spec_determinant(),
        ensures
            r == self.spec_inverse_cell(i as int, j as int),
    {
        if i < self.rows && j < self.cols {
            self.cofactor(j, i).div(det)
        } else {
            Scalar::zero()
        }
    }

    pub open spec fn spec_inverse_row(self, i: int) -> Row {
        Row(
            self.spec_inverse_cell(i, 0),
            self.spec_inverse_cell(i, 1),
            self.spec_inverse_cell(i, 2),
            self.spec_inverse_cell(i, 3),
        )
    }

    fn inverse_row(&self, det: Scalar, i: usize) -> (r: Row)
        requires
            self.is_square(),
            3 <= self.rows <= 4,
            det == self.spec_determinant(),
        ensures
            r == self.spec_inverse_row(i as int),
    {
        Row(
            self.inverse_cell(det, i, 0),
            self.inverse_cell(det, i, 1),
            self.inverse_cell(det, i, 2),
            self.inverse_cell(det, i, 3),
        )
    }

    #[verifier::opaque]
    pub open spec fn spec_inverse(self) -> Matrix {
        Matrix {
            rows: self.rows,
            cols: self.cols,
            r0: self.spec_inverse_row(0),
            r1: self.spec_inverse_row(1),
            r2: self.spec_inverse_row(2),
            r3: self.spec_inverse_row(3),
        }
    }

    /// The inverse: the transposed matrix of cofactors, each over the
    /// determinant.
    pub fn inverse(&self) -> (r: Matrix)
        requires
            self.is_square(),
            3 <= self.rows <= 4,
            self.spec_is_invertible(),
        ensures
            r == self.spec_inverse(),
            r.rows == self.rows,
            r.cols == self.cols,
    {
        reveal(Matrix::spec_inverse);
        let det = self.determinant();
        Matrix {
            rows: self.rows,
            cols: self.cols,
            r0: self.inverse_row(det, 0),
            r1: self.inverse_row(det, 1),
            r2: self.inverse_row(det, 2),
            r3: self.inverse_row(det, 3),
        }
    }

    /// Row `i` of the product with `o`.
    pub open spec fn spec_mul_row(self, o: Matrix, i: int) -> Row {
        let row = self.spec_row(i);
        Row(
            row.spec_dot(o.spec_col(0)),
            row.spec_dot(o.spec_col(1)),
            row.spec_dot(o.spec_col(2)),
            row.spec_dot(o.spec_col(3)),
        )
    }

    fn mul_row(&self, o: &Matrix, i: usize) -> (r: Row)
        ensures
            r == self.spec_mul_row(*o, i as int),
    {
        let row = self.row(i);
        Row(row.dot(o.col(0)), row.dot(o.col(1)), row.dot(o.col(2)), row.dot(o.col(3)))
    }

    #[verifier::opaque]
    pub open spec fn spec_mul(self, o: Matrix) -> Matrix {
        Matrix {
            rows: self.rows,
            cols: o.cols,
            r0: self.spec_mul_row(o, 0),
            r1: self.spec_mul_row(o, 1),
            r2: self.spec_mul_row(o, 2),
            r3: self.spec_mul_row(o, 3),
        }
    }

    /// The product: each cell is the sum, along a row of this matrix and a
    /// column of `o`, of the products of their cells.
    pub fn mul(self, o: Matrix) -> (r: Matrix)
        requires
            self.cols == o.rows,
        ensures
            r == self.spec_mul(o),
            r.rows == self.rows,
            r.cols == o.cols,
    {
        reveal(Matrix::spec_mul);
        Matrix {
            rows: self.rows,
            cols: o.cols,
            r0: self.mul_row(&o, 0),
            r1: self.mul_row(&o, 1),
            r2: self.mul_row(&o, 2),
            r3: self.mul_row(&o, 3),
        }
    }

    pub open spec fn spec_mul_vector(self, v: Vector) -> Vector {
        let t = Row(v.0, v.1, v.2, v.3);
        Vector(
            self.spec_row(0).spec_dot(t),
            self.spec_row(1).spec_dot(t),
            self.spec_row(2).spec_dot(t),
            self.spec_row(3).spec_dot(t),
        )
    }

    /// The product of a 4 x 4 matrix and a vector.
    pub fn mul_vector(self, v: Vector) -> (r: Vector)
        requires
            self.rows == 4,
            self.cols == 4,
        ensures
            r == self.spec_mul_vector(v),
    {
        let t = Row(v.0, v.1, v.2, v.3);
        Vector(self.row(0).dot(t), self.row(1).dot(t), self.row(2).dot(t), self.row(3).dot(t))
    }

    pub open spec fn spec_mul_point(self, p: Point) -> Point {
        let t = Row(p.0, p.1, p.2, p.3);
        Point(
            self.spec_row(0).spec_dot(t),
            self.spec_row(1).spec_dot(t),
            self.spec_row(2).spec_dot(t),
            self.spec_row(3).spec_dot(t),
        )
    }

    /// The product of a 4 x 4 matrix and a point.
    pub fn mul_point(self, p: Point) -> (r: Point)
        requires
            self.rows == 4,
            self.cols == 4,
        ensures
            r == self.spec_mul_point(p),
    {
        let t = Row(p.0, p.1, p.2, p.3);
        Point(self.row(0).dot(t), self.row(1).dot(t), self.row(2).dot(t), self.row(3).dot(t))
    }

    /// Whether the cells of row `i` are within the tolerance of each other.
    pub open spec fn spec_row_approx_eq(self, o: Matrix, i: int) -> bool {
        self.spec_get(i, 0).approx_eq(o.spec_get(i, 0)) && self.spec_get(i, 1).approx_eq(
            o.spec_get(i, 1),
        ) && self.spec_get(i, 2).approx_eq(o.spec_get(i, 2)) && self.spec_get(i, 3).approx_eq(
            o.spec_get(i, 3),
        )
    }

    fn row_approx_eq(&self, o: &Matrix, i: usize) -> (r: bool)
        ensures
            r == self.spec_row_approx_eq(*o, i as int),
    {
        self.get(i, 0).approx_eq(o.get(i, 0)) && self.get(i, 1).approx_eq(o.get(i, 1))
            && self.get(i, 2).approx_eq(o.get(i, 2)) && self.get(i, 3).approx_eq(o.get(i, 3))
    }

    /// Whether the sizes are the same and each cell is within the tolerance
    /// of the other's.
    pub open spec fn spec_approx_eq(&self, o: &Matrix) -> bool {
        self.rows == o.rows && self.cols == o.cols && self.spec_row_approx_eq(*o, 0)
            && self.spec_row_approx_eq(*o, 1) && self.spec_row_approx_eq(*o, 2)
            && self.spec_row_approx_eq(*o, 3)
    }
}

/// A square matrix whose first column is zero has the determinant zero.
pub proof fn lemma_zero_column_determinant(m: Matrix)
    requires
        m.is_square(),
        2 <= m.rows <= 4,
        m.first_column_is_zero(),
    ensures
        m.spec_determinant() == Scalar::zero(),
    decreases m.rows,
{
    if m.rows > 2 {
        let a = m.spec_submatrix(0, 1);
        let b = m.spec_submatrix(0, 2);
        assert(a.first_column_is_zero());
        assert(b.first_column_is_zero());
        lemma_zero_column_determinant(a);
        lemma_zero_column_determinant(b);
        assert(m.spec_cofactor(0, 1) == Scalar::zero());
        assert(m.spec_cofactor(0, 2) == Scalar::zero());
        if m.rows > 3 {
            let c = m.spec_submatrix(0, 3);
            assert(c.first_column_is_zero());
            lemma_zero_column_determinant(c);
            assert(m.spec_cofactor(0, 3) == Scalar::zero());
        }
        lemma_mul_one_and_zero(m.spec_cofactor(0, 0));
        lemma_mul_one_and_zero(m.spec_get(0, 1));
        lemma_mul_one_and_zero(m.spec_get(0, 2));
        lemma_mul_one_and_zero(m.spec_get(0, 3));
    } else {
        lemma_mul_one_and_zero(m.spec_get(1, 1));
        lemma_mul_one_and_zero(m.spec_get(0, 1));
    }
}

/// The determinant of a square matrix with zero under the diagonal is the
/// product of the diagonal, taken from the last cell up.
pub proof fn lemma_upper_triangular_determinant(m: Matrix)
    requires
        m.is_square(),
        2 <= m.rows <= 4,
        m.is_upper_triangular(),
    ensures
        m.spec_determinant() == m.spec_diagonal_product(0),
    decreases m.rows,
{
    if m.rows > 2 {
        let head = m.spec_submatrix(0, 0);
        assert(head.is_upper_triangular());
        lemma_upper_triangular_determinant(head);
        assert(head.spec_diagonal_product(0) == m.spec_diagonal_product(1)) by {
            assert(head.spec_get(0, 0) == m.spec_get(1, 1));
            assert(head.spec_get(1, 1) == m.spec_get(2, 2));
            assert(head.spec_get(2, 2) == m.spec_get(3, 3));
            reveal_with_fuel(Matrix::spec_diagonal_product, 4);
        }
        let a = m.spec_submatrix(0, 1);
        let b = m.spec_submatrix(0, 2);
        assert(a.first_column_is_zero());
        assert(b.first_column_is_zero());
        lemma_zero_column_determinant(a);
        lemma_zero_column_determinant(b);
        assert(m.spec_cofactor(0, 1) == Scalar::zero());
        assert(m.spec_cofactor(0, 2) == Scalar::zero());
        if m.rows > 3 {
            let c = m.spec_submatrix(0, 3);
            assert(c.first_column_is_zero());
            lemma_zero_column_determinant(c);
            assert(m.spec_cofactor(0, 3) == Scalar::zero());
        }
        lemma_mul_one_and_zero(m.spec_get(0, 1));
        lemma_mul_one_and_zero(m.spec_get(0, 2));
        lemma_mul_one_and_zero(m.spec_get(0, 3));
        assert(m.spec_cofactor(0, 0) == m.spec_diagonal_product(1));
    } else {
        lemma_mul_one_and_zero(m.spec_get(0, 1));
        reveal_with_fuel(Matrix::spec_diagonal_product, 3);
    }
}

/// The 4 x 4 matrix of sixteen raw integers, row by row.
pub open spec fn spec_raw_matrix(
    r0: (int, int, int, int),
    r1: (int, int, int, int),
    r2: (int, int, int, int),
    r3: (int, int, int, int),
) -> Matrix {
    Matrix {
        rows: 4,
        cols: 4,
        r0: Row(spec_raw(r0.0), spec_raw(r0.1), spec_raw(r0.2), spec_raw(r0.3)),
        r1: Row(spec_raw(r1.0), spec_raw(r1.1), spec_raw(r1.2), spec_raw(r1.3)),
        r2: Row(spec_raw(r2.0), spec_raw(r2.1), spec_raw(r2.2), spec_raw(r2.3)),
        r3: Row(spec_raw(r3.0), spec_raw(r3.1), spec_raw(r3.2), spec_raw(r3.3)),
    }
}

/// The determinant of two rows of two, written out: `a * d - b * c`.
pub open spec fn spec_det2(a: Scalar, b: Scalar, c: Scalar, d: Scalar) -> Scalar {
    a.mul(d).sub(b.mul(c))
}

/// The determinant of three rows of three, written out: along the first
/// row, each cell times the determinant of what is left without its row and
/// column, the middle one negated.
pub open spec fn spec_det3(a: Row, b: Row, c: Row) -> Scalar {
    a.0.mul(spec_det2(b.1, b.2, c.1, c.2)).add(a.1.mul(spec_det2(b.0, b.2, c.0, c.2).neg())).add(
        a.2.mul(spec_det2(b.0, b.1, c.0, c.1)),
    )
}

/// The raw integer of the sum of the products of two rows' cells.
pub open spec fn raw_dot(
    a0: int,
    a1: int,
    a2: int,
    a3: int,
    b0: int,
    b1: int,
    b2: int,
    b3: int,
) -> int {
    sat(sat(sat(raw_mul(a0, b0) + raw_mul(a1, b1)) + raw_mul(a2, b2)) + raw_mul(a3, b3)) as int
}

/// The raw integer of the determinant of two rows of two.
pub open spec fn raw_det2(a: int, b: int, c: int, d: int) -> int {
    sat(raw_mul(a, d) - raw_mul(b, c)) as int
}

/// The raw integer of the determinant of three rows of three.
pub open spec fn raw_det3(
    a0: int,
    a1: int,
    a2: int,
    b0: int,
    b1: int,
    b2: int,
    c0: int,
    c1: int,
    c2: int,
) -> int {
    sat(
        sat(
            raw_mul(a0, raw_det2(b1, b2, c1, c2)) + raw_mul(
                a1,
                sat(-raw_det2(b0, b2, c0, c2)) as int,
            ),
        ) + raw_mul(a2, raw_det2(b0, b1, c0, c1)),
    ) as int
}

/// The sum of the products of two rows' cells and the determinant of three
/// rows, in raw integers.
pub proof fn lemma_raw_rows(a: Row, b: Row, c: Row)
    ensures
        a.spec_dot(b).raw == raw_dot(
            a.0.raw as int,
            a.1.raw as int,
            a.2.raw as int,
            a.3.raw as int,
            b.0.raw as int,
            b.1.raw as int,
            b.2.raw as int,
            b.3.raw as int,
        ),
        spec_det3(a, b, c).raw == raw_det3(
            a.0.raw as int,
            a.1.raw as int,
            a.2.raw as int,
            b.0.raw as int,
            b.1.raw as int,
            b.2.raw as int,
            c.0.raw as int,
            c.1.raw as int,
            c.2.raw as int,
        ),
{
}

/// The determinant of a matrix of three rows and columns is the one that
/// is written out.
pub proof fn lemma_determinant_written_out(m: Matrix)
    requires
        m.rows == 3,
        m.cols == 3,
    ensures
        m.spec_determinant() == spec_det3(m.spec_row(0), m.spec_row(1), m.spec_row(2)),
{
    reveal_with_fuel(Matrix::spec_determinant, 2);
    assert(m.spec_cofactor(0, 0) == spec_det2(
        m.spec_get(1, 1),
        m.spec_get(1, 2),
        m.spec_get(2, 1),
        m.spec_get(2, 2),
    ));
    assert(m.spec_cofactor(0, 1) == spec_det2(
        m.spec_get(1, 0),
        m.spec_get(1, 2),
        m.spec_get(2, 0),
        m.spec_get(2, 2),
    ).neg());
    assert(m.spec_cofactor(0, 2) == spec_det2(
        m.spec_get(1, 0),
        m.spec_get(1, 1),
        m.spec_get(2, 0),
        m.spec_get(2, 1),
    ));
}

/// A cofactor of a matrix of four rows and columns is the determinant,
/// written out, of what is left without its row and column, negated where
/// `row + col` is odd.
pub proof fn lemma_cofactor_written_out(m: Matrix, row: int, col: int)
    requires
        m.rows == 4,
        m.cols == 4,
        0 <= row < 4,
        0 <= col < 4,
    ensures
        m.spec_cofactor(row, col) == ({
            let rest = m.spec_submatrix(row, col);
            let d = spec_det3(rest.spec_row(0), rest.spec_row(1), rest.spec_row(2));
            if (row + col) % 2 == 0 {
                d
            } else {
                d.neg()
            }
        }),
{
    lemma_determinant_written_out(m.spec_submatrix(row, col));
}

/// Four raw integers: the cells of one row.
pub type RawRow = (int, int, int, int);

/// Whether the four raw integers of a row fit a scalar each.
pub open spec fn raw_row_fits(r: RawRow) -> bool {
    &&& i64::MIN <= r.0 <= i64::MAX
    &&& i64::MIN <= r.1 <= i64::MAX
    &&& i64::MIN <= r.2 <= i64::MAX
    &&& i64::MIN <= r.3 <= i64::MAX
}

/// The raw integer of a cofactor of the first row of a matrix of four
/// rows, from the raw integers of its other rows: the determinant of what
/// is left of them without column `col`, negated where `col` is odd.
pub open spec fn raw_cofactor(b: RawRow, c: RawRow, d: RawRow, col: int) -> int {
    if col == 0 {
        raw_det3(b.1, b.2, b.3, c.1, c.2, c.3, d.1, d.2, d.3)
    } else if col == 1 {
        sat(-raw_det3(b.0, b.2, b.3, c.0, c.2, c.3, d.0, d.2, d.3)) as int
    } else if col == 2 {
        raw_det3(b.0, b.1, b.3, c.0, c.1, c.3, d.0, d.1, d.3)
    } else {
        sat(-raw_det3(b.0, b.1, b.2, c.0, c.1, c.2, d.0, d.1, d.2)) as int
    }
}

/// The raw integer of the determinant of a matrix of four rows, from the
/// raw integers of its rows.
pub open spec fn raw_det4(a: RawRow, b: RawRow, c: RawRow, d: RawRow) -> int {
    sat(
        sat(
            sat(raw_mul(a.0, raw_cofactor(b, c, d, 0)) + raw_mul(a.1, raw_cofactor(b, c, d, 1)))
                + raw_mul(a.2, raw_cofactor(b, c, d, 2)),
        ) + raw_mul(a.3, raw_cofactor(b, c, d, 3)),
    ) as int
}

/// The raw integers of the last row of the inverse of a matrix of four
/// rows, from the raw integers of its rows: the cofactors of its last
/// column, each over the determinant.
pub open spec fn raw_inverse_last_row(a: RawRow, b: RawRow, c: RawRow, d: RawRow) -> RawRow {
    let det = raw_det4(a, b, c, d);
    (
        crate::scalar::raw_div(
            sat(-raw_det3(b.0, b.1, b.2, c.0, c.1, c.2, d.0, d.1, d.2)) as int,
            det,
        ),
        crate::scalar::raw_div(raw_det3(a.0, a.1, a.2, c.0, c.1, c.2, d.0, d.1, d.2), det),
        crate::scalar::raw_div(
            sat(-raw_det3(a.0, a.1, a.2, b.0, b.1, b.2, d.0, d.1, d.2)) as int,
            det,
        ),
        crate::scalar::raw_div(raw_det3(a.0, a.1, a.2, b.0, b.1, b.2, c.0, c.1, c.2), det),
    )
}

/// The raw integers of one row of a product of two matrices of four rows,
/// from the raw integers of the row of the one and of the rows of the
/// other.
pub open spec fn raw_product_row(x: RawRow, a: RawRow, b: RawRow, c: RawRow, d: RawRow) -> RawRow {
    (
        raw_dot(x.0, x.1, x.2, x.3, a.0, b.0, c.0, d.0),
        raw_dot(x.0, x.1, x.2, x.3, a.1, b.1, c.1, d.1),
        raw_dot(x.0, x.1, x.2, x.3, a.2, b.2, c.2, d.2),
        raw_dot(x.0, x.1, x.2, x.3, a.3, b.3, c.3, d.3),
    )
}

/// The determinant of a matrix of four rows that is given by raw integers
/// is the scalar of the raw integer that `raw_det4` gives.
pub proof fn lemma_raw_determinant(a: RawRow, b: RawRow, c: RawRow, d: RawRow)
    requires
        raw_row_fits(a),
        raw_row_fits(b),
        raw_row_fits(c),
        raw_row_fits(d),
    ensures
        spec_raw_matrix(a, b, c, d).spec_determinant().raw == raw_det4(a, b, c, d),
        spec_raw_matrix(a, b, c, d).spec_cofactor(0, 0).raw == raw_cofactor(b, c, d, 0),
        spec_raw_matrix(a, b, c, d).spec_cofactor(0, 1).raw == raw_cofactor(b, c, d, 1),
        spec_raw_matrix(a, b, c, d).spec_cofactor(0, 2).raw == raw_cofactor(b, c, d, 2),
        spec_raw_matrix(a, b, c, d).spec_cofactor(0, 3).raw == raw_cofactor(b, c, d, 3),
{
    let m = spec_raw_matrix(a, b, c, d);
    lemma_raw_first_cofactor(m, 0);
    lemma_raw_first_cofactor(m, 1);
    lemma_raw_first_cofactor(m, 2);
    lemma_raw_first_cofactor(m, 3);
}

/// A cofactor of the first row of a matrix of four rows, in raw integers.
proof fn lemma_raw_first_cofactor(m: Matrix, col: int)
    requires
        m.rows == 4,
        m.cols == 4,
        0 <= col < 4,
    ensures
        m.spec_cofactor(0, col).raw == raw_cofactor(
            (m.r1.0.raw as int, m.r1.1.raw as int, m.r1.2.raw as int, m.r1.3.raw as int),
            (m.r2.0.raw as int, m.r2.1.raw as int, m.r2.2.raw as int, m.r2.3.raw as int),
            (m.r3.0.raw as int, m.r3.1.raw as int, m.r3.2.raw as int, m.r3.3.raw as int),
            col,
        ),
{
    let rest = m.spec_submatrix(0, col);
    lemma_cofactor_written_out(m, 0, col);
    lemma_raw_rows(rest.spec_row(0), rest.spec_row(1), rest.spec_row(2));
}

/// A cofactor of the last column of a matrix of four rows, in raw
/// integers: the determinant of the three other rows without their last
/// cells, negated where `row` is even.
proof fn lemma_raw_last_cofactor(m: Matrix, row: int)
    requires
        m.rows == 4,
        m.cols == 4,
        0 <= row < 4,
    ensures
        m.spec_cofactor(row, 3).raw == ({
            let rest = m.spec_submatrix(row, 3);
            let d = raw_det3(
                rest.r0.0.raw as int,
                rest.r0.1.raw as int,
                rest.r0.2.raw as int,
                rest.r1.0.raw as int,
                rest.r1.1.raw as int,
                rest.r1.2.raw as int,
                rest.r2.0.raw as int,
                rest.r2.1.raw as int,
                rest.r2.2.raw as int,
            );
            if row % 2 == 1 {
                d
            } else {
                sat(-d) as int
            }
        }),
{
    let rest = m.spec_submatrix(row, 3);
    lemma_cofactor_written_out(m, row, 3);
    lemma_raw_rows(rest.spec_row(0), rest.spec_row(1), rest.spec_row(2));
}

/// The last row of the inverse of a matrix of four rows that is given by
/// raw integers is the row of the raw integers that `raw_inverse_last_row`
/// gives.
pub proof fn lemma_raw_inverse_last_row(a: RawRow, b: RawRow, c: RawRow, d: RawRow)
    requires
        raw_row_fits(a),
        raw_row_fits(b),
        raw_row_fits(c),
        raw_row_fits(d),
    ensures
        ({
            let row = spec_raw_matrix(a, b, c, d).spec_inverse().spec_row(3);
            let raw = raw_inverse_last_row(a, b, c, d);
            row.0.raw == raw.0 && row.1.raw == raw.1 && row.2.raw == raw.2 && row.3.raw == raw.3
        }),
{
    let m = spec_raw_matrix(a, b, c, d);
    reveal(Matrix::spec_inverse);
    lemma_raw_determinant(a, b, c, d);
    lemma_raw_last_cofactor(m, 0);
    lemma_raw_last_cofactor(m, 1);
    lemma_raw_last_cofactor(m, 2);
    lemma_raw_last_cofactor(m, 3);
    crate::scalar::lemma_raw_mul_div(m.spec_cofactor(0, 3), m.spec_determinant());
    crate::scalar::lemma_raw_mul_div(m.spec_cofactor(1, 3), m.spec_determinant());
    crate::scalar::lemma_raw_mul_div(m.spec_cofactor(2, 3), m.spec_determinant());
    crate::scalar::lemma_raw_mul_div(m.spec_cofactor(3, 3), m.spec_determinant());
}

/// The product of two matrices of four rows that are given by raw integers
/// is the matrix of the raw integers that `raw_product_row` gives row by
/// row, where those fit.
pub proof fn lemma_raw_product(
    a: RawRow,
    b: RawRow,
    c: RawRow,
    d: RawRow,
    e: RawRow,
    f: RawRow,
    g: RawRow,
    h: RawRow,
)
    requires
        raw_row_fits(a),
        raw_row_fits(b),
        raw_row_fits(c),
        raw_row_fits(d),
        raw_row_fits(e),
        raw_row_fits(f),
        raw_row_fits(g),
        raw_row_fits(h),
    ensures
        spec_raw_matrix(a, b, c, d).spec_mul(spec_raw_matrix(e, f, g, h)) == spec_raw_matrix(
            raw_product_row(a, e, f, g, h),
            raw_product_row(b, e, f, g, h),
            raw_product_row(c, e, f, g, h),
            raw_product_row(d, e, f, g, h),
        ),
{
    let m = spec_raw_matrix(a, b, c, d);
    let o = spec_raw_matrix(e, f, g, h);
    reveal(Matrix::spec_mul);
    lemma_raw_product_row(m, o, 0);
    lemma_raw_product_row(m, o, 1);
    lemma_raw_product_row(m, o, 2);
    lemma_raw_product_row(m, o, 3);
}

/// One row of a product of two matrices of four rows, in raw integers.
proof fn lemma_raw_product_row(m: Matrix, o: Matrix, i: int)
    requires
        m.rows == 4,
        m.cols == 4,
        o.rows == 4,
        o.cols == 4,
        0 <= i < 4,
    ensures
        ({
            let row = m.spec_mul_row(o, i);
            let x = m.spec_row(i);
            let raw = raw_product_row(
                (x.0.raw as int, x.1.raw as int, x.2.raw as int, x.3.raw as int),
                (o.r0.0.raw as int, o.r0.1.raw as int, o.r0.2.raw as int, o.r0.3.raw as int),
                (o.r1.0.raw as int, o.r1.1.raw as int, o.r1.2.raw as int, o.r1.3.raw as int),
                (o.r2.0.raw as int, o.r2.1.raw as int, o.r2.2.raw as int, o.r2.3.raw as int),
                (o.r3.0.raw as int, o.r3.1.raw as int, o.r3.2.raw as int, o.r3.3.raw as int),
            );
            row.0.raw == raw.0 && row.1.raw == raw.1 && row.2.raw == raw.2 && row.3.raw == raw.3
        }),
{
    let x = m.spec_row(i);
    lemma_raw_rows(x, o.spec_col(0), x);
    lemma_raw_rows(x, o.spec_col(1), x);
    lemma_raw_rows(x, o.spec_col(2), x);
    lemma_raw_rows(x, o.spec_col(3), x);
}

/// The identity is a transformation: its determinant is one.
pub proof fn lemma_identity_is_transformation()
    ensures
        Matrix::identity().spec_determinant() == Scalar::one(),
        Matrix::identity().spec_is_transformation(),
{
    lemma_upper_triangular_determinant(Matrix::identity());
    reveal_with_fuel(Matrix::spec_diagonal_product, 5);
    lemma_mul_one_and_zero(Scalar::one());
}

/// A square matrix of three rows whose last row is zero has the determinant
/// zero.
pub proof fn lemma_zero_last_row_determinant(m: Matrix)
    requires
        m.rows == 3,
        m.cols == 3,
        m.spec_get(2, 0) == Scalar::zero(),
        m.spec_get(2, 1) == Scalar::zero(),
        m.spec_get(2, 2) == Scalar::zero(),
    ensures
        m.spec_determinant() == Scalar::zero(),
{
    reveal_with_fuel(Matrix::spec_determinant, 2);
    lemma_mul_one_and_zero(m.spec_get(1, 0));
    lemma_mul_one_and_zero(m.spec_get(1, 1));
    lemma_mul_one_and_zero(m.spec_get(1, 2));
    assert(m.spec_cofactor(0, 0) == Scalar::zero());
    assert(m.spec_cofactor(0, 1) == Scalar::zero());
    assert(m.spec_cofactor(0, 2) == Scalar::zero());
    lemma_mul_one_and_zero(m.spec_get(0, 0));
    lemma_mul_one_and_zero(m.spec_get(0, 1));
    lemma_mul_one_and_zero(m.spec_get(0, 2));
}

/// A square matrix of three rows of which one is zero has the determinant
/// zero.
pub proof fn lemma_zero_row_determinant(m: Matrix, row: int)
    requires
        m.rows == 3,
        m.cols == 3,
        0 <= row < 3,
        m.spec_get(row, 0) == Scalar::zero(),
        m.spec_get(row, 1) == Scalar::zero(),
        m.spec_get(row, 2) == Scalar::zero(),
    ensures
        m.spec_determinant() == Scalar::zero(),
{
    if row == 2 {
        lemma_zero_last_row_determinant(m);
    } else if row == 1 {
        reveal_with_fuel(Matrix::spec_determinant, 2);
        lemma_mul_one_and_zero(m.spec_get(2, 0));
        lemma_mul_one_and_zero(m.spec_get(2, 1));
        lemma_mul_one_and_zero(m.spec_get(2, 2));
        assert(m.spec_cofactor(0, 0) == Scalar::zero());
        assert(m.spec_cofactor(0, 1) == Scalar::zero());
        assert(m.spec_cofactor(0, 2) == Scalar::zero());
        lemma_mul_one_and_zero(m.spec_get(0, 0));
        lemma_mul_one_and_zero(m.spec_get(0, 1));
        lemma_mul_one_and_zero(m.spec_get(0, 2));
    } else {
        lemma_mul_one_and_zero(m.spec_cofactor(0, 0));
        lemma_mul_one_and_zero(m.spec_cofactor(0, 1));
        lemma_mul_one_and_zero(m.spec_cofactor(0, 2));
    }
}

/// The inverse of the identity is the identity.
pub proof fn lemma_identity_inverse()
    ensures
        Matrix::identity().spec_inverse() == Matrix::identity(),
{
    let m = Matrix::identity();
    reveal(Matrix::spec_inverse);
    lemma_identity_is_transformation();
    lemma_div_by_itself(Scalar::one());
    // the cofactors of the diagonal
    lemma_upper_triangular_determinant(m.spec_submatrix(0, 0));
    lemma_upper_triangular_determinant(m.spec_submatrix(1, 1));
    lemma_upper_triangular_determinant(m.spec_submatrix(2, 2));
    lemma_upper_triangular_determinant(m.spec_submatrix(3, 3));
    reveal_with_fuel(Matrix::spec_diagonal_product, 4);
    lemma_mul_one_and_zero(Scalar::one());
    assert(m.spec_cofactor(0, 0) == Scalar::one());
    assert(m.spec_cofactor(1, 1) == Scalar::one());
    assert(m.spec_cofactor(2, 2) == Scalar::one());
    assert(m.spec_cofactor(3, 3) == Scalar::one());
    // the others: what is left of the identity without row `j` and column
    // `i` has a zero row where row `i` was
    lemma_zero_row_determinant(m.spec_submatrix(1, 0), 0);
    lemma_zero_row_determinant(m.spec_submatrix(2, 0), 0);
    lemma_zero_row_determinant(m.spec_submatrix(3, 0), 0);
    lemma_zero_row_determinant(m.spec_submatrix(0, 1), 0);
    lemma_zero_row_determinant(m.spec_submatrix(2, 1), 1);
    lemma_zero_row_determinant(m.spec_submatrix(3, 1), 1);
    lemma_zero_row_determinant(m.spec_submatrix(0, 2), 1);
    lemma_zero_row_determinant(m.spec_submatrix(1, 2), 1);
    lemma_zero_row_determinant(m.spec_submatrix(3, 2), 2);
    lemma_zero_row_determinant(m.spec_submatrix(0, 3), 2);
    lemma_zero_row_determinant(m.spec_submatrix(1, 3), 2);
    lemma_zero_row_determinant(m.spec_submatrix(2, 3), 2);
    assert(m.spec_inverse_row(0) == m.r0);
    assert(m.spec_inverse_row(1) == m.r1);
    assert(m.spec_inverse_row(2) == m.r2);
    assert(m.spec_inverse_row(3) == m.r3);
}

/// The identity times its inverse is the identity.
pub proof fn lemma_identity_times_inverse()
    ensures
        Matrix::identity().spec_mul(Matrix::identity().spec_inverse()) == Matrix::identity(),
{
    let m = Matrix::identity();
    lemma_identity_inverse();
    reveal(Matrix::spec_mul);
    lemma_mul_one_and_zero(Scalar::one());
    lemma_mul_one_and_zero(Scalar::zero());
    assert(m.spec_mul_row(m, 0) == m.r0);
    assert(m.spec_mul_row(m, 1) == m.r1);
    assert(m.spec_mul_row(m, 2) == m.r2);
    assert(m.spec_mul_row(m, 3) == m.r3);
}

/// A scalar that is not zero, divided by itself, is one.
pub proof fn lemma_div_by_itself(x: Scalar)
    requires
        x != Scalar::zero(),
    ensures
        x.div(x) == Scalar::one(),
{
    let n = x.raw as int;
    if n > 0 {
        assert((n * 0x1_0000_0000) / n == 0x1_0000_0000) by (nonlinear_arith)
            requires
                n > 0,
        ;
    } else {
        let back = -n;
        assert(-(n * 0x1_0000_0000) == back * 0x1_0000_0000) by (nonlinear_arith)
            requires
                back == -n,
        ;
        assert((back * 0x1_0000_0000) / back == 0x1_0000_0000) by (nonlinear_arith)
            requires
                back > 0,
        ;
    }
}

/// The inverse of a matrix that keeps points and vectors apart does so
/// too, where the matrix has zero under the diagonal: if the last row of
/// such a transformation is `(0, 0, 0, 1)`, so is the last row of its
/// inverse.
pub proof fn lemma_inverse_last_row(m: Matrix)
    requires
        m.spec_is_transformation(),
        m.is_upper_triangular(),
        m.spec_get(3, 3) == Scalar::one(),
    ensures
        m.spec_inverse().spec_row(3) == Row(
            Scalar::zero(),
            Scalar::zero(),
            Scalar::zero(),
            Scalar::one(),
        ),
{
    reveal(Matrix::spec_inverse);
    let det = m.spec_determinant();
    lemma_zero_last_row_determinant(m.spec_submatrix(0, 3));
    lemma_zero_last_row_determinant(m.spec_submatrix(1, 3));
    lemma_zero_last_row_determinant(m.spec_submatrix(2, 3));
    assert(m.spec_cofactor(0, 3) == Scalar::zero());
    assert(m.spec_cofactor(1, 3) == Scalar::zero());
    assert(m.spec_cofactor(2, 3) == Scalar::zero());
    let head = m.spec_submatrix(3, 3);
    assert(head.is_upper_triangular());
    lemma_upper_triangular_determinant(head);
    lemma_upper_triangular_determinant(m);
    reveal_with_fuel(Matrix::spec_diagonal_product, 5);
    lemma_mul_one_and_zero(m.spec_get(2, 2));
    assert(head.spec_get(0, 0) == m.spec_get(0, 0));
    assert(head.spec_get(1, 1) == m.spec_get(1, 1));
    assert(head.spec_get(2, 2) == m.spec_get(2, 2));
    assert(m.spec_cofactor(3, 3) == det);
    lemma_div_by_itself(det);
    assert(m.spec_inverse_cell(3, 0) == Scalar::zero());
    assert(m.spec_inverse_cell(3, 1) == Scalar::zero());
    assert(m.spec_inverse_cell(3, 2) == Scalar::zero());
    assert(m.spec_inverse_cell(3, 3) == Scalar::one());
}

/// The largest raw integer of a cell, 32768, up to which
/// `lemma_affine_inverse_last_row` speaks of a matrix.
pub const AFFINE_CELL_LIMIT: i64 = 0x8000_0000_0000;

/// Whether the raw integer of a scalar is within the limit of
/// `lemma_affine_inverse_last_row`, on either side of zero.
pub open spec fn is_affine_cell(x: Scalar) -> bool {
    -AFFINE_CELL_LIMIT <= x.raw <= AFFINE_CELL_LIMIT
}

/// A product with a negated factor is the negated product, where both
/// factors are within the limit.
proof fn lemma_mul_negated(x: Scalar, y: Scalar)
    requires
        is_affine_cell(x),
        is_affine_cell(y),
    ensures
        x.mul(y.neg()).raw == -x.mul(y).raw,
{
    let a = x.raw as int;
    let b = y.raw as int;
    let limit = AFFINE_CELL_LIMIT as int;
    assert(a * (-b) == -(a * b)) by (nonlinear_arith);
    assert(-(limit * limit) <= a * b <= limit * limit) by (nonlinear_arith)
        requires
            -limit <= a <= limit,
            -limit <= b <= limit,
    ;
    assert(limit * limit == 0x4000_0000_0000_0000_0000_0000int) by (nonlinear_arith)
        requires
            limit == 0x8000_0000_0000,
    ;
}

/// The determinant of three rows of which the last is `(0, 0, 1)` is the
/// determinant of the first two cells of the first two rows, where those
/// are within the limit.
proof fn lemma_det3_over_unit_row(a: Row, b: Row, c: Row)
    requires
        c.0 == Scalar::zero(),
        c.1 == Scalar::zero(),
        c.2 == Scalar::one(),
        is_affine_cell(a.1),
        is_affine_cell(b.0),
    ensures
        spec_det3(a, b, c) == spec_det2(a.0, a.1, b.0, b.1),
{
    lemma_mul_one_and_zero(b.0);
    lemma_mul_one_and_zero(b.1);
    lemma_mul_one_and_zero(b.2);
    lemma_mul_one_and_zero(a.2);
    lemma_mul_negated(a.1, b.0);
    assert(spec_det2(b.1, b.2, c.1, c.2) == b.1);
    assert(spec_det2(b.0, b.2, c.0, c.2) == b.0);
    assert(spec_det2(b.0, b.1, c.0, c.1) == Scalar::zero());
}

/// The inverse of a matrix that keeps points and vectors apart does so
/// too: if the last row of a transformation is `(0, 0, 0, 1)`, and the
/// first three cells of its second and of its third row are within
/// `AFFINE_CELL_LIMIT`, the last row of its inverse is `(0, 0, 0, 1)`.
pub proof fn lemma_affine_inverse_last_row(m: Matrix)
    requires
        m.spec_is_transformation(),
        m.spec_row(3) == Row(Scalar::zero(), Scalar::zero(), Scalar::zero(), Scalar::one()),
        is_affine_cell(m.spec_get(1, 0)),
        is_affine_cell(m.spec_get(1, 1)),
        is_affine_cell(m.spec_get(1, 2)),
        is_affine_cell(m.spec_get(2, 0)),
        is_affine_cell(m.spec_get(2, 1)),
        is_affine_cell(m.spec_get(2, 2)),
    ensures
        m.spec_inverse().spec_row(3) == Row(
            Scalar::zero(),
            Scalar::zero(),
            Scalar::zero(),
            Scalar::one(),
        ),
{
    reveal(Matrix::spec_inverse);
    let det = m.spec_determinant();
    lemma_zero_last_row_determinant(m.spec_submatrix(0, 3));
    lemma_zero_last_row_determinant(m.spec_submatrix(1, 3));
    lemma_zero_last_row_determinant(m.spec_submatrix(2, 3));
    assert(m.spec_cofactor(0, 3) == Scalar::zero());
    assert(m.spec_cofactor(1, 3) == Scalar::zero());
    assert(m.spec_cofactor(2, 3) == Scalar::zero());
    // the other cofactors of the first row are those of the first three
    // rows and columns
    let first = m.spec_submatrix(0, 0);
    let second = m.spec_submatrix(0, 1);
    let third = m.spec_submatrix(0, 2);
    lemma_cofactor_written_out(m, 0, 0);
    lemma_cofactor_written_out(m, 0, 1);
    lemma_cofactor_written_out(m, 0, 2);
    lemma_det3_over_unit_row(first.spec_row(0), first.spec_row(1), first.spec_row(2));
    lemma_det3_over_unit_row(second.spec_row(0), second.spec_row(1), second.spec_row(2));
    lemma_det3_over_unit_row(third.spec_row(0), third.spec_row(1), third.spec_row(2));
    lemma_cofactor_written_out(m, 3, 3);
    lemma_mul_one_and_zero(m.spec_get(0, 3));
    assert(m.spec_cofactor(3, 3) == det);
    lemma_div_by_itself(det);
    assert(m.spec_inverse_cell(3, 0) == Scalar::zero());
    assert(m.spec_inverse_cell(3, 1) == Scalar::zero());
    assert(m.spec_inverse_cell(3, 2) == Scalar::zero());
    assert(m.spec_inverse_cell(3, 3) == Scalar::one());
}

/// The identity leaves every vector as it is, component by component.
pub proof fn lemma_identity_keeps_vector(v: Vector)
    ensures
        Matrix::identity().spec_mul_vector(v) == v,
{
    lemma_mul_one_and_zero(v.0);
    lemma_mul_one_and_zero(v.1);
    lemma_mul_one_and_zero(v.2);
    lemma_mul_one_and_zero(v.3);
}

/// The identity leaves every point as it is, component by component.
pub proof fn lemma_identity_keeps_point(p: Point)
    ensures
        Matrix::identity().spec_mul_point(p) == p,
{
    lemma_mul_one_and_zero(p.0);
    lemma_mul_one_and_zero(p.1);
    lemma_mul_one_and_zero(p.2);
    lemma_mul_one_and_zero(p.3);
}

impl PartialEq for Matrix {
    fn eq(&self, other: &Self) -> (r: bool) {
        self.rows == other.rows && self.cols == other.cols && self.row_approx_eq(other, 0)
            && self.row_approx_eq(other, 1) && self.row_approx_eq(other, 2) && self.row_approx_eq(
            other,
            3,
        )
    }
}

impl PartialEqSpecImpl for Matrix {
    open spec fn obeys_eq_spec() -> bool {
        true
    }

    open spec fn eq_spec(&self, other: &Self) -> bool {
        self.spec_approx_eq(other)
    }
}

} // verus!
