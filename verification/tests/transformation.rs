use raytracer::matrices::Matrix;
use raytracer::scalar::Scalar;
use raytracer::transformation::{
    rotation_x, rotation_y, rotation_z, scaling, shearing, translation, view_transform,
};
use raytracer::tuples::{Point, Vector};
use std::f64::consts::PI;

fn s(x: f64) -> Scalar {
    Scalar { raw: (x * 4294967296.0).round() as i64 }
}

fn p(x: f64, y: f64, z: f64) -> Point {
    Point::new(s(x), s(y), s(z))
}

fn v(x: f64, y: f64, z: f64) -> Vector {
    Vector::new(s(x), s(y), s(z))
}

fn m(rows: Vec<Vec<f64>>) -> Matrix {
    Matrix::from_vec(rows.into_iter().map(|r| r.into_iter().map(s).collect()).collect())
}

#[test]
fn multiplying_translation_matrix() {
    let transform = translation(s(5.0), s(-3.0), s(2.0));

    assert_eq!(transform.mul_point(p(-3.0, 4.0, 5.0)), p(2.0, 1.0, 7.0));
}

#[test]
fn multiplying_inverse_translation_matrix() {
    let transform = translation(s(5.0), s(-3.0), s(2.0));
    let inv = transform.inverse();

    assert_eq!(inv.mul_point(p(-3.0, 4.0, 5.0)), p(-8.0, 7.0, 3.0));
}

#[test]
fn translation_not_affect_vectors() {
    let transform = translation(s(5.0), s(-3.0), s(2.0));
    let a = v(-3.0, 4.0, 5.0);

    assert_eq!(transform.mul_vector(a), a);
}

#[test]
fn scaling_matrix_to_point() {
    let transform = scaling(s(2.0), s(3.0), s(4.0));

    assert_eq!(transform.mul_point(p(-4.0, 6.0, 8.0)), p(-8.0, 18.0, 32.0));
}

#[test]
fn scaling_matrix_to_vector() {
    let transform = scaling(s(2.0), s(3.0), s(4.0));

    assert_eq!(transform.mul_vector(v(-4.0, 6.0, 8.0)), v(-8.0, 18.0, 32.0));
}

#[test]
fn multiplying_inverse_of_scaling_matrix() {
    let transform = scaling(s(2.0), s(3.0), s(4.0));
    let inv = transform.inverse();

    assert_eq!(inv.mul_vector(v(-4.0, 6.0, 8.0)), v(-2.0, 2.0, 2.0));
}

#[test]
fn reflection_is_scaling_by_negative() {
    let transform = scaling(s(-1.0), s(1.0), s(1.0));

    assert_eq!(transform.mul_point(p(2.0, 3.0, 4.0)), p(-2.0, 3.0, 4.0));
}

#[test]
fn rotating_point_around_x_axis() {
    let a = p(0.0, 1.0, 0.0);
    let half_quarter = rotation_x(s(PI / 4.0));
    let full_quarter = rotation_x(s(PI / 2.0));

    assert_eq!(half_quarter.mul_point(a), p(0.0, 2.0_f64.sqrt() / 2.0, 2.0_f64.sqrt() / 2.0));
    assert_eq!(full_quarter.mul_point(a), p(0.0, 0.0, 1.0));
}

#[test]
fn inverse_of_x_rotation_rotates_opposite_direction() {
    let a = p(0.0, 1.0, 0.0);
    let half_quarter = rotation_x(s(PI / 4.0));
    let inv = half_quarter.inverse();

    assert_eq!(inv.mul_point(a), p(0.0, 2.0_f64.sqrt() / 2.0, -2.0_f64.sqrt() / 2.0));
}

#[test]
fn rotating_point_around_y_axis() {
    let a = p(0.0, 0.0, 1.0);
    let half_quarter = rotation_y(s(PI / 4.0));
    let full_quarter = rotation_y(s(PI / 2.0));

    assert_eq!(half_quarter.mul_point(a), p(2.0_f64.sqrt() / 2.0, 0.0, 2.0_f64.sqrt() / 2.0));
    assert_eq!(full_quarter.mul_point(a), p(1.0, 0.0, 0.0));
}

#[test]
fn rotating_point_around_z_axis() {
    let a = p(0.0, 1.0, 0.0);
    let half_quarter = rotation_z(s(PI / 4.0));
    let full_quarter = rotation_z(s(PI / 2.0));

    assert_eq!(half_quarter.mul_point(a), p(-2.0_f64.sqrt() / 2.0, 2.0_f64.sqrt() / 2.0, 0.0));
    assert_eq!(full_quarter.mul_point(a), p(-1.0, 0.0, 0.0));
}

#[test]
fn sharing_transformation_moves_one_in_proportion_to_another() {
    let a = p(2.0, 3.0, 4.0);

    let transform = shearing(s(1.0), s(0.0), s(0.0), s(0.0), s(0.0), s(0.0));
    assert_eq!(transform.mul_point(a), p(5.0, 3.0, 4.0));

    let transform = shearing(s(0.0), s(1.0), s(0.0), s(0.0), s(0.0), s(0.0));
    assert_eq!(transform.mul_point(a), p(6.0, 3.0, 4.0));

    let transform = shearing(s(0.0), s(0.0), s(1.0), s(0.0), s(0.0), s(0.0));
    assert_eq!(transform.mul_point(a), p(2.0, 5.0, 4.0));

    let transform = shearing(s(0.0), s(0.0), s(0.0), s(1.0), s(0.0), s(0.0));
    assert_eq!(transform.mul_point(a), p(2.0, 7.0, 4.0));

    let transform = shearing(s(0.0), s(0.0), s(0.0), s(0.0), s(1.0), s(0.0));
    assert_eq!(transform.mul_point(a), p(2.0, 3.0, 6.0));

    let transform = shearing(s(0.0), s(0.0), s(0.0), s(0.0), s(0.0), s(1.0));
    assert_eq!(transform.mul_point(a), p(2.0, 3.0, 7.0));
}

#[test]
fn default_orientation() {
    let t = view_transform(Point::origin(), p(0.0, 0.0, -1.0), v(0.0, 1.0, 0.0));

    assert_eq!(t, Matrix::identity());
}

#[test]
fn looking_in_positive_z_direction() {
    let t = view_transform(Point::origin(), p(0.0, 0.0, 1.0), v(0.0, 1.0, 0.0));

    assert_eq!(t, scaling(s(-1.0), s(1.0), s(-1.0)));
}

#[test]
fn view_transform_moves_world() {
    let t = view_transform(p(0.0, 0.0, 8.0), Point::origin(), v(0.0, 1.0, 0.0));

    assert_eq!(t, translation(s(0.0), s(0.0), s(-8.0)));
}

#[test]
fn arbitrary_view_transform() {
    let t = view_transform(p(1.0, 3.0, 2.0), p(4.0, -2.0, 8.0), v(1.0, 1.0, 0.0));

    assert_eq!(
        t,
        m(vec![
            vec![-0.50709, 0.50709, 0.67612, -2.36643],
            vec![0.76772, 0.60609, 0.12122, -2.82843],
            vec![-0.35857, 0.59761, -0.71714, 0.0],
            vec![0.0, 0.0, 0.0, 1.0],
        ])
    );
}

#[test]
fn inverse_of_a_transformation_keeps_points_and_vectors_apart() {
    let t = translation(s(1.0), s(2.0), s(3.0))
        .mul(rotation_y(s(0.7)))
        .mul(scaling(s(2.0), s(0.5), s(3.0)));
    let inv = t.inverse();

    assert_eq!(inv.row(3).0, s(0.0));
    assert_eq!(inv.row(3).1, s(0.0));
    assert_eq!(inv.row(3).2, s(0.0));
    assert_eq!(inv.row(3).3, s(1.0));
    assert_eq!(inv.mul_point(t.mul_point(p(1.0, -2.0, 3.0))), p(1.0, -2.0, 3.0));
}

#[test]
fn translation_is_undone_by_the_opposite_translation() {
    let t = translation(s(5.25), s(-3.0), s(20000.5));
    let back = t.inverse();
    let opposite = translation(s(-5.25), s(3.0), s(-20000.5));

    for i in 0..4 {
        for j in 0..4 {
            assert_eq!(back.get(i, j).raw, opposite.get(i, j).raw);
            assert_eq!(t.mul(back).get(i, j).raw, Matrix::identity().get(i, j).raw);
            assert_eq!(back.mul(t).get(i, j).raw, Matrix::identity().get(i, j).raw);
        }
    }
}

#[test]
fn inverse_of_a_sheared_and_moved_matrix_keeps_the_last_row() {
    let t = shearing(s(1.0), s(0.5), s(-2.0), s(0.0), s(3.0), s(0.25))
        .mul(translation(s(-7.0), s(100.0), s(0.125)))
        .mul(rotation_x(s(1.1)));
    assert!(t.is_transformation());
    let inv = t.inverse();

    assert_eq!(inv.row(3).0.raw, 0);
    assert_eq!(inv.row(3).1.raw, 0);
    assert_eq!(inv.row(3).2.raw, 0);
    assert_eq!(inv.row(3).3.raw, 1 << 32);
}

#[test]
fn scaling_times_its_inverse_is_the_identity_within_the_slack() {
    let cases = [
        (0.0625, 0.0625, 0.0625),
        (16.0, 16.0, 16.0),
        (0.0625, -16.0, 3.7),
        (-2.5, -0.3, 11.0),
        (16.0, 0.0625, 0.0625),
    ];
    for (x, y, z) in cases {
        let t = scaling(s(x), s(y), s(z));
        assert!(t.is_transformation());
        let back = t.inverse();
        let there = t.mul(back);
        let here = back.mul(t);
        for i in 0..4 {
            for j in 0..4 {
                let want: i64 = if i == j { 1 << 32 } else { 0 };
                assert!((there.get(i, j).raw - want).abs() < 8210);
                assert_eq!(here.get(i, j).raw, there.get(i, j).raw);
            }
        }
        assert_eq!(there, Matrix::identity());
        assert_eq!(back.get(3, 3).raw, 1 << 32);
    }
}
