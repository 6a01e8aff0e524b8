use raytracer::scalar::Scalar;
use raytracer::tuples::{Point, Tuple, Vector};
use std::f64::consts::PI;

fn s(x: f64) -> Scalar {
    Scalar { raw: (x * 4294967296.0).round() as i64 }
}

fn p(x: f64, y: f64, z: f64) -> Point {
    Point::new(s(x), s(y), s(z))
}

fn v(x: f64, y: f64, z: f64) -> Vector {
    Vector::new(s(x), s(y), s(z))
}

#[test]
fn point_creates_tuple_with_w1() {
    let p = Point::new(s(4.0), s(-4.0), s(3.0));

    assert_eq!(p, Point(s(4.0), s(-4.0), s(3.0), s(1.0)));
    assert_eq!(p.3, s(1.0));
}

#[test]
fn vector_creates_tuple_with_w0() {
    let v = Vector::new(s(4.0), s(-4.0), s(3.0));

    assert_eq!(v, Vector(s(4.0), s(-4.0), s(3.0), s(0.0)));
    assert_eq!(v.3, s(0.0));
}

#[test]
fn adding_two_tuples() {
    let a1 = Point(s(3.0), s(-2.0), s(5.0), s(1.0));
    let a2 = Vector(s(-2.0), s(3.0), s(1.0), s(0.0));

    assert_eq!(a1.add(a2), Point(s(1.0), s(1.0), s(6.0), s(1.0)));
    assert_eq!(a2.add_point(a1), Point(s(1.0), s(1.0), s(6.0), s(1.0)));
}

#[test]
fn subtracting_two_points() {
    let p1 = p(3.0, 2.0, 1.0);
    let p2 = p(5.0, 6.0, 7.0);

    assert_eq!(p1.sub(p2), v(-2.0, -4.0, -6.0));
}

#[test]
fn subtracting_vector_from_point() {
    let p1 = p(3.0, 2.0, 1.0);
    let v1 = v(5.0, 6.0, 7.0);

    assert_eq!(p1.sub_vector(v1), p(-2.0, -4.0, -6.0));
}

#[test]
fn subtracting_two_vectors() {
    let v1 = v(3.0, 2.0, 1.0);
    let v2 = v(5.0, 6.0, 7.0);

    assert_eq!(v1.sub(v2), v(-2.0, -4.0, -6.0));
}

#[test]
fn negating_tuple() {
    let a = Vector(s(1.0), s(-2.0), s(3.0), s(-4.0));
    let b = Point(s(1.0), s(-2.0), s(3.0), s(-4.0));

    assert_eq!(a.neg(), Vector(s(-1.0), s(2.0), s(-3.0), s(4.0)));
    assert_eq!(b.neg(), Point(s(-1.0), s(2.0), s(-3.0), s(4.0)));
}

#[test]
fn multiplying_vector_by_scalar() {
    let a = Vector(s(1.0), s(-2.0), s(3.0), s(-4.0));

    assert_eq!(a.mul(s(3.5)), Vector(s(3.5), s(-7.0), s(10.5), s(-14.0)));
}

#[test]
fn multiplying_vector_by_fraction() {
    let a = Vector(s(1.0), s(-2.0), s(3.0), s(-4.0));

    assert_eq!(a.mul(s(0.5)), Vector(s(0.5), s(-1.0), s(1.5), s(-2.0)));
}

#[test]
fn dividing_vector_by_scalar() {
    let a = Vector(s(1.0), s(-2.0), s(3.0), s(-4.0));

    assert_eq!(a.div(s(2.0)), Vector(s(0.5), s(-1.0), s(1.5), s(-2.0)));
}

#[test]
fn computing_magnitude_of_vectors() {
    assert_eq!(v(1.0, 0.0, 0.0).magnitude(), s(1.0));
    assert_eq!(v(0.0, 1.0, 0.0).magnitude(), s(1.0));
    assert_eq!(v(0.0, 0.0, 1.0).magnitude(), s(1.0));
    assert_eq!(v(1.0, 2.0, 3.0).magnitude(), s(14.0_f64.sqrt()));
    assert_eq!(v(-1.0, -2.0, -3.0).magnitude(), s(14.0_f64.sqrt()));
}

#[test]
fn normalizing_vectors() {
    assert_eq!(v(4.0, 0.0, 0.0).normalize(), v(1.0, 0.0, 0.0));
    assert_eq!(v(1.0, 2.0, 3.0).normalize(), v(0.26726, 0.53452, 0.80178));
}

#[test]
fn magnitude_of_normalized_vector() {
    let norm = v(1.0, 2.0, 3.0).normalize();

    assert!(norm.magnitude().approx_eq(s(1.0)));
}

#[test]
fn dot_product_of_two_vectors() {
    let a = v(1.0, 2.0, 3.0);
    let b = v(2.0, 3.0, 4.0);

    assert_eq!(a.dot(&b), s(20.0));
}

#[test]
fn cross_product_of_two_vectors() {
    let a = v(1.0, 2.0, 3.0);
    let b = v(2.0, 3.0, 4.0);

    assert_eq!(a.cross(&b), v(-1.0, 2.0, -1.0));
    assert_eq!(b.cross(&a), v(1.0, -2.0, 1.0));
}

#[test]
fn chained_transformations() {
    let p1 = p(1.0, 0.0, 1.0);

    assert_eq!(
        p1.rotate_x(s(PI / 2.0)).scale(s(5.0), s(5.0), s(5.0)).translate(s(10.0), s(5.0), s(7.0)),
        p(15.0, 0.0, 7.0)
    );
}

#[test]
fn reflecting_vector_at_45deg() {
    let r = v(1.0, -1.0, 0.0).reflect(v(0.0, 1.0, 0.0));

    assert_eq!(r, v(1.0, 1.0, 0.0));
}

#[test]
fn reflecting_vector_off_slanted_surface() {
    let n = v(2.0_f64.sqrt() / 2.0, 2.0_f64.sqrt() / 2.0, 0.0);
    let r = v(0.0, -1.0, 0.0).reflect(n);

    assert_eq!(r, v(1.0, 0.0, 0.0));
}

#[test]
fn vector_transformations_leave_translation_out() {
    let a = v(1.0, 2.0, 3.0);

    assert_eq!(a.translate(s(5.0), s(5.0), s(5.0)), a);
    assert_eq!(a.scale(s(2.0), s(2.0), s(2.0)), v(2.0, 4.0, 6.0));
    assert_eq!(v(0.0, 1.0, 0.0).rotate_z(s(PI / 2.0)), v(-1.0, 0.0, 0.0));
    assert_eq!(v(0.0, 0.0, 1.0).rotate_y(s(PI / 2.0)), v(1.0, 0.0, 0.0));
    assert_eq!(p(2.0, 3.0, 4.0).shear(s(1.0), s(0.0), s(0.0), s(0.0), s(0.0), s(0.0)), p(5.0, 3.0, 4.0));
    assert_eq!(v(2.0, 3.0, 4.0).shear(s(0.0), s(0.0), s(0.0), s(0.0), s(0.0), s(1.0)), v(2.0, 3.0, 7.0));
}

#[test]
fn tuples_from_four_components() {
    let a = Vector::from_vec(vec![s(1.0), s(2.0), s(3.0), s(0.0)]);
    let b = Point::from_vec(vec![s(1.0), s(2.0), s(3.0), s(1.0)]);

    assert_eq!(a, v(1.0, 2.0, 3.0));
    assert_eq!(b, p(1.0, 2.0, 3.0));
    assert_eq!(Point::origin(), p(0.0, 0.0, 0.0));
}

#[test]
fn reflection_keeps_the_length_for_a_unit_normal() {
    let u = v(3.0, -4.0, 12.0);
    let n = v(1.0, 2.0, 2.0).normalize();

    assert!(u.reflect(n).magnitude().approx_eq(u.magnitude()));
    assert!(u.magnitude().approx_eq(s(13.0)));
}
