use raytracer::matrices::Matrix;
use raytracer::scalar::Scalar;
use raytracer::tuples::{Point, Vector};

fn s(x: f64) -> Scalar {
    Scalar { raw: (x * 4294967296.0).round() as i64 }
}

fn m(rows: Vec<Vec<f64>>) -> Matrix {
    Matrix::from_vec(rows.into_iter().map(|r| r.into_iter().map(s).collect()).collect())
}

#[test]
fn constructing_and_inspecting_4x4_matrix() {
    let a = m(vec![
        vec![1.0, 2.0, 3.0, 4.0],
        vec![5.5, 6.5, 7.5, 8.5],
        vec![9.0, 10.0, 11.0, 12.0],
        vec![13.5, 14.5, 15.5, 16.5],
    ]);

    assert_eq!(a.at(0, 0), s(1.0));
    assert_eq!(a.at(0, 3), s(4.0));
    assert_eq!(a.at(1, 0), s(5.5));
    assert_eq!(a.at(1, 2), s(7.5));
    assert_eq!(a.at(2, 2), s(11.0));
    assert_eq!(a.at(3, 0), s(13.5));
    assert_eq!(a.at(3, 2), s(15.5));
}

#[test]
fn other_size_matrices_representable() {
    let a = m(vec![vec![-3.0, 5.0], vec![1.0, -2.0]]);

    assert_eq!(a.at(0, 0), s(-3.0));
    assert_eq!(a.at(0, 1), s(5.0));
    assert_eq!(a.at(1, 0), s(1.0));
    assert_eq!(a.at(1, 1), s(-2.0));

    let a = m(vec![vec![-3.0, 5.0, 0.0], vec![1.0, -2.0, -7.0], vec![0.0, 1.0, 1.0]]);

    assert_eq!(a.at(0, 0), s(-3.0));
    assert_eq!(a.at(1, 1), s(-2.0));
    assert_eq!(a.at(2, 2), s(1.0));
}

#[test]
fn matrix_equality_with_indentical_matrices() {
    let a = m(vec![
        vec![1.0, 2.0, 3.0, 4.0],
        vec![5.0, 6.0, 7.0, 8.0],
        vec![9.0, 8.0, 7.0, 6.0],
        vec![5.0, 4.0, 3.0, 2.0],
    ]);
    let b = m(vec![
        vec![1.0, 2.0, 3.0, 4.0],
        vec![5.0, 6.0, 7.0, 8.0],
        vec![9.0, 8.0, 7.0, 6.0],
        vec![5.0, 4.0, 3.0, 2.0],
    ]);

    assert_eq!(a, b);
}

#[test]
fn matrix_equality_with_different_matrices() {
    let a = m(vec![
        vec![1.0, 2.0, 3.0, 4.0],
        vec![5.0, 6.0, 7.0, 8.0],
        vec![9.0, 8.0, 7.0, 6.0],
        vec![5.0, 4.0, 3.0, 2.0],
    ]);
    let b = m(vec![
        vec![2.0, 3.0, 4.0, 5.0],
        vec![6.0, 7.0, 8.0, 9.0],
        vec![8.0, 7.0, 6.0, 5.0],
        vec![4.0, 3.0, 2.0, 1.0],
    ]);

    assert_ne!(a, b);
}

#[test]
fn multiplying_two_matrices() {
    let a = m(vec![
        vec![1.0, 2.0, 3.0, 4.0],
        vec![5.0, 6.0, 7.0, 8.0],
        vec![9.0, 8.0, 7.0, 6.0],
        vec![5.0, 4.0, 3.0, 2.0],
    ]);
    let b = m(vec![
        vec![-2.0, 1.0, 2.0, 3.0],
        vec![3.0, 2.0, 1.0, -1.0],
        vec![4.0, 3.0, 6.0, 5.0],
        vec![1.0, 2.0, 7.0, 8.0],
    ]);
    let expected = m(vec![
        vec![20.0, 22.0, 50.0, 48.0],
        vec![44.0, 54.0, 114.0, 108.0],
        vec![40.0, 58.0, 110.0, 102.0],
        vec![16.0, 26.0, 46.0, 42.0],
    ]);

    assert_eq!(a.mul(b), expected);
}

#[test]
fn multiplying_matrix_by_tuple() {
    let a = m(vec![
        vec![1.0, 2.0, 3.0, 4.0],
        vec![2.0, 4.0, 4.0, 2.0],
        vec![8.0, 6.0, 4.0, 1.0],
        vec![0.0, 0.0, 0.0, 1.0],
    ]);
    let b = Point(s(1.0), s(2.0), s(3.0), s(1.0));

    assert_eq!(a.mul_point(b), Point(s(18.0), s(24.0), s(33.0), s(1.0)));
}

#[test]
fn multiplying_by_identity_matrix() {
    let a = m(vec![
        vec![0.0, 1.0, 2.0, 4.0],
        vec![1.0, 2.0, 4.0, 8.0],
        vec![2.0, 4.0, 8.0, 16.0],
        vec![4.0, 8.0, 16.0, 32.0],
    ]);
    let t = Vector(s(1.0), s(2.0), s(3.0), s(4.0));
    let identity_matrix = Matrix::identity();

    assert_eq!(a.mul(identity_matrix), a);
    assert_eq!(identity_matrix.mul_vector(t), t);
    assert_eq!(identity_matrix.mul_vector(t).3, s(4.0));
}

#[test]
fn transposing_matrix() {
    let a = m(vec![
        vec![0.0, 9.0, 3.0, 0.0],
        vec![9.0, 8.0, 0.0, 8.0],
        vec![1.0, 8.0, 5.0, 3.0],
        vec![0.0, 0.0, 5.0, 8.0],
    ]);
    let expected = m(vec![
        vec![0.0, 9.0, 1.0, 0.0],
        vec![9.0, 8.0, 8.0, 0.0],
        vec![3.0, 0.0, 5.0, 5.0],
        vec![0.0, 8.0, 3.0, 8.0],
    ]);

    assert_eq!(a.transpose(), expected);
}

#[test]
fn transposing_identity_matrix() {
    let a = Matrix::identity().transpose();

    assert_eq!(a, Matrix::identity());
}

#[test]
fn calculating_determinant_of_2x2() {
    let a = m(vec![vec![1.0, 5.0], vec![-3.0, 2.0]]);

    assert_eq!(a.determinant(), s(17.0));
}

#[test]
fn calculating_determinant_of_3x3() {
    let a = m(vec![vec![1.0, 2.0, 6.0], vec![-5.0, 8.0, -4.0], vec![2.0, 6.0, 4.0]]);

    assert_eq!(a.cofactor(0, 0), s(56.0));
    assert_eq!(a.cofactor(0, 1), s(12.0));
    assert_eq!(a.cofactor(0, 2), s(-46.0));
    assert_eq!(a.determinant(), s(-196.0));
}

#[test]
fn calculating_determinant_of_4x4() {
    let a = m(vec![
        vec![-2.0, -8.0, 3.0, 5.0],
        vec![-3.0, 1.0, 7.0, 3.0],
        vec![1.0, 2.0, -9.0, 6.0],
        vec![-6.0, 7.0, 7.0, -9.0],
    ]);

    assert_eq!(a.cofactor(0, 0), s(690.0));
    assert_eq!(a.cofactor(0, 1), s(447.0));
    assert_eq!(a.cofactor(0, 2), s(210.0));
    assert_eq!(a.cofactor(0, 3), s(51.0));
    assert_eq!(a.determinant(), s(-4071.0));
}

#[test]
fn submatrix_of_3x3_is_2x2() {
    let a = m(vec![vec![1.0, 5.0, 0.0], vec![-3.0, 2.0, 7.0], vec![0.0, 6.0, -3.0]]);
    let expected = m(vec![vec![-3.0, 2.0], vec![0.0, 6.0]]);

    assert_eq!(a.submatrix(0, 2), expected);
    assert_eq!(a.submatrix(0, 2).rows, 2);
    assert_eq!(a.submatrix(0, 2).cols, 2);
}

#[test]
fn submatrix_of_4x4_is_3x3() {
    let a = m(vec![
        vec![-6.0, 1.0, 1.0, 6.0],
        vec![-8.0, 5.0, 8.0, 6.0],
        vec![-1.0, 0.0, 8.0, 2.0],
        vec![-7.0, 1.0, -1.0, 1.0],
    ]);
    let expected = m(vec![vec![-6.0, 1.0, 6.0], vec![-8.0, 8.0, 6.0], vec![-7.0, -1.0, 1.0]]);

    assert_eq!(a.submatrix(2, 1), expected);
}

#[test]
fn calculating_minor_of_3x3() {
    let a = m(vec![vec![3.0, 5.0, 0.0], vec![2.0, -1.0, -7.0], vec![6.0, -1.0, 5.0]]);
    let b = a.submatrix(1, 0);

    assert_eq!(b.determinant(), s(25.0));
    assert_eq!(a.minor(1, 0), s(25.0));
}

#[test]
fn calculating_cofactor_of_3x3() {
    let a = m(vec![vec![3.0, 5.0, 0.0], vec![2.0, -1.0, -7.0], vec![6.0, -1.0, 5.0]]);

    assert_eq!(a.minor(0, 0), s(-12.0));
    assert_eq!(a.cofactor(0, 0), s(-12.0));
    assert_eq!(a.minor(1, 0), s(25.0));
    assert_eq!(a.cofactor(1, 0), s(-25.0));
}

#[test]
fn testing_invertible_matrix_for_invertibility() {
    let a = m(vec![
        vec![6.0, 4.0, 4.0, 4.0],
        vec![5.0, 5.0, 7.0, 6.0],
        vec![4.0, -9.0, 3.0, -7.0],
        vec![9.0, 1.0, 7.0, -6.0],
    ]);

    assert_eq!(a.determinant(), s(-2120.0));
    assert_eq!(a.is_invertible(), true);
    assert_eq!(a.is_transformation(), true);
}

#[test]
fn testing_noninvertible_matrix_for_invertibility() {
    let a = m(vec![
        vec![-4.0, 2.0, -2.0, -3.0],
        vec![9.0, 6.0, 2.0, 6.0],
        vec![0.0, -5.0, 1.0, -5.0],
        vec![0.0, 0.0, 0.0, 0.0],
    ]);

    assert_eq!(a.determinant(), s(0.0));
    assert_eq!(a.is_invertible(), false);
    assert_eq!(a.is_transformation(), false);
}

#[test]
fn calculating_inverse_of_matrix() {
    let a = m(vec![
        vec![-5.0, 2.0, 6.0, -8.0],
        vec![1.0, -5.0, 1.0, 8.0],
        vec![7.0, 7.0, -6.0, -7.0],
        vec![1.0, -3.0, 7.0, 4.0],
    ]);
    let b = a.inverse();

    assert_eq!(a.determinant(), s(532.0));
    assert_eq!(a.cofactor(2, 3), s(-160.0));
    assert!(b.at(3, 2).approx_eq(s(-160.0 / 532.0)));
    assert_eq!(b.at(3, 2), s(-160.0).div(s(532.0)));
    assert_eq!(a.cofactor(3, 2), s(105.0));
    assert!(b.at(2, 3).approx_eq(s(105.0 / 532.0)));
    assert_eq!(b.at(2, 3), s(105.0).div(s(532.0)));
    assert_eq!(
        b,
        m(vec![
            vec![0.21805, 0.45113, 0.24060, -0.04511],
            vec![-0.80827, -1.45677, -0.44361, 0.52068],
            vec![-0.07895, -0.22368, -0.05263, 0.19737],
            vec![-0.52256, -0.81391, -0.30075, 0.30639],
        ])
    );

    let a = m(vec![
        vec![8.0, -5.0, 9.0, 2.0],
        vec![7.0, 5.0, 6.0, 1.0],
        vec![-6.0, 0.0, 9.0, 6.0],
        vec![-3.0, 0.0, -9.0, -4.0],
    ]);

    assert_eq!(
        a.inverse(),
        m(vec![
            vec![-0.15385, -0.15385, -0.28205, -0.53846],
            vec![-0.07692, 0.12308, 0.02564, 0.03077],
            vec![0.35897, 0.35897, 0.43590, 0.92308],
            vec![-0.69231, -0.69231, -0.76923, -1.92308],
        ])
    );

    let a = m(vec![
        vec![9.0, 3.0, 0.0, 9.0],
        vec![-5.0, -2.0, -6.0, -3.0],
        vec![-4.0, 9.0, 6.0, 4.0],
        vec![-7.0, 6.0, 6.0, 2.0],
    ]);

    assert_eq!(
        a.inverse(),
        m(vec![
            vec![-0.04074, -0.07778, 0.14444, -0.22222],
            vec![-0.07778, 0.03333, 0.36667, -0.33333],
            vec![-0.02901, -0.14630, -0.10926, 0.12963],
            vec![0.17778, 0.06667, -0.26667, 0.33333],
        ])
    );
}

#[test]
fn multiplying_product_by_its_inverse() {
    let a = m(vec![
        vec![3.0, -9.0, 7.0, 3.0],
        vec![3.0, -8.0, 2.0, -9.0],
        vec![-4.0, 4.0, 4.0, 1.0],
        vec![-6.0, 5.0, -1.0, 1.0],
    ]);
    let b = m(vec![
        vec![8.0, 2.0, 2.0, 2.0],
        vec![3.0, -1.0, 7.0, 0.0],
        vec![7.0, 0.0, 5.0, 4.0],
        vec![6.0, -2.0, 0.0, 5.0],
    ]);
    let c = a.mul(b);

    assert_eq!(c.mul(b.inverse()), a);
}

#[test]
fn matrix_times_its_inverse_is_the_identity() {
    let a = m(vec![
        vec![0.0, 9.0, 3.0, 0.0],
        vec![9.0, 8.0, 0.0, 8.0],
        vec![1.0, 8.0, 5.0, 3.0],
        vec![0.0, 0.0, 5.0, 8.0],
    ]);

    assert_eq!(a.mul(a.inverse()), Matrix::identity());
    assert_eq!(a.transpose().inverse(), a.inverse().transpose());
    assert_eq!(Matrix::identity().inverse(), Matrix::identity());
}

#[test]
fn equality_is_tolerant_in_both_directions() {
    let a = m(vec![vec![1.0, 2.0], vec![3.0, 4.0]]);
    let above = m(vec![vec![1.000001, 2.0], vec![3.0, 4.0]]);
    let below = m(vec![vec![0.999999, 2.0], vec![3.0, 4.0]]);
    let far = m(vec![vec![0.9, 2.0], vec![3.0, 4.0]]);
    let wide = m(vec![vec![1.0, 2.0, 0.0], vec![3.0, 4.0, 0.0]]);

    assert_eq!(a, above);
    assert_eq!(a, below);
    assert_ne!(a, far);
    assert_ne!(far, a);
    assert_ne!(a, wide);
}

#[test]
fn cells_outside_a_small_matrix_read_as_zero() {
    let a = m(vec![vec![1.0, 2.0], vec![3.0, 4.0]]);

    assert_eq!(a.get(1, 1), s(4.0));
    assert_eq!(a.get(2, 0), s(0.0));
    assert_eq!(a.get(0, 2), s(0.0));
    assert_eq!(a.row(1).get(0), s(3.0));
    assert_eq!(a.col(1).get(0), s(2.0));
    assert_eq!(a.transpose().at(0, 1), s(3.0));
}
