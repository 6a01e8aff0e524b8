use raytracer::intersection::{hit, Intersection};
use raytracer::rays::Ray;
use raytracer::scalar::{Scalar, EPSILON_RAW};
use raytracer::shapes::{Plane, Sphere};
use raytracer::transformation::translation;
use raytracer::tuples::{Point, Vector};

fn s(x: f64) -> Scalar {
    Scalar { raw: (x * 4294967296.0).round() as i64 }
}

fn p(x: f64, y: f64, z: f64) -> Point {
    Point::new(s(x), s(y), s(z))
}

fn v(x: f64, y: f64, z: f64) -> Vector {
    Vector::new(s(x), s(y), s(z))
}

#[test]
fn intersection_encapsulates_t_and_object() {
    let sphere = Sphere::new();
    let i = Intersection::new(s(3.5), &sphere);

    assert_eq!(i.t, s(3.5));
    assert!(i.object.equals(&sphere));
}

#[test]
fn hit_when_all_intersections_positive_t() {
    let sphere = Sphere::new();
    let i1 = Intersection::new(s(1.0), &sphere);
    let i2 = Intersection::new(s(2.0), &sphere);
    let xs = vec![i1, i2];

    let i = hit(xs).unwrap();

    assert!(i.equals(&i1));
}

#[test]
fn hit_when_some_intersections_negative_t() {
    let sphere = Sphere::new();
    let i1 = Intersection::new(s(-1.0), &sphere);
    let i2 = Intersection::new(s(1.0), &sphere);
    let xs = vec![i1, i2];

    let i = hit(xs).unwrap();

    assert!(i.equals(&i2));
}

#[test]
fn hit_when_all_intersections_negative_t() {
    let sphere = Sphere::new();
    let i1 = Intersection::new(s(-2.0), &sphere);
    let i2 = Intersection::new(s(-1.0), &sphere);
    let xs = vec![i1, i2];

    let i = hit(xs);

    assert!(i.is_none());
}

#[test]
fn hit_is_the_lowest_nonnegative_intersection() {
    let sphere = Sphere::new();
    let i1 = Intersection::new(s(5.0), &sphere);
    let i2 = Intersection::new(s(7.0), &sphere);
    let i3 = Intersection::new(s(-3.0), &sphere);
    let i4 = Intersection::new(s(2.0), &sphere);
    let xs = vec![i1, i2, i3, i4];

    let i = hit(xs).unwrap();

    assert!(i.equals(&i4));
}

#[test]
fn hit_of_equal_distances_is_the_first() {
    let first = Sphere::new();
    let second = Sphere::new();
    let third = Plane::new();
    let xs = vec![
        Intersection::new(s(3.0), &third),
        Intersection::new(s(2.0), &first),
        Intersection::new(s(-2.0), &third),
        Intersection::new(s(2.0), &second),
    ];

    let i = hit(xs).unwrap();

    assert_eq!(i.t, s(2.0));
    assert!(i.object.is_same(&first));
    assert!(!i.object.is_same(&second));
    assert!(hit(Vec::new()).is_none());
    assert_eq!(hit(vec![Intersection::new(s(0.0), &third)]).unwrap().t, s(0.0));
}

#[test]
fn precomputing_state_of_intersection() {
    let r = Ray::new(p(0.0, 0.0, -5.0), v(0.0, 0.0, 1.0));
    let shape = Sphere::new();
    let i = Intersection { t: s(4.0), object: &shape };

    let comps = i.prepare_computations(r);

    assert_eq!(comps.t, i.t);
    assert!(comps.object.equals(i.object));
    assert_eq!(comps.point, p(0.0, 0.0, -1.0));
    assert_eq!(comps.eyev, v(0.0, 0.0, -1.0));
    assert_eq!(comps.normalv, v(0.0, 0.0, -1.0));
}

#[test]
fn precomputing_reflection_vector() {
    let shape = Plane::new();
    let r = Ray::new(p(0.0, 1.0, -1.0), v(0.0, -(2.0_f64.sqrt() / 2.0), 2.0_f64.sqrt() / 2.0));
    let i = Intersection::new(s(2.0_f64.sqrt()), &shape);

    let comps = i.prepare_computations(r);

    assert_eq!(comps.reflectv, v(0.0, 2.0_f64.sqrt() / 2.0, 2.0_f64.sqrt() / 2.0))
}

#[test]
fn hit_when_intersection_occurs_outside() {
    let r = Ray::new(p(0.0, 0.0, -5.0), v(0.0, 0.0, 1.0));
    let shape = Sphere::new();
    let i = Intersection { t: s(4.0), object: &shape };

    let comps = i.prepare_computations(r);

    assert_eq!(comps.inside, false);
}

#[test]
fn hit_when_intersection_occurs_inside() {
    let r = Ray::new(Point::origin(), v(0.0, 0.0, 1.0));
    let shape = Sphere::new();
    let i = Intersection { t: s(1.0), object: &shape };

    let comps = i.prepare_computations(r);

    assert_eq!(comps.point, p(0.0, 0.0, 1.0));
    assert_eq!(comps.eyev, v(0.0, 0.0, -1.0));
    assert_eq!(comps.normalv, v(0.0, 0.0, -1.0));
    assert_eq!(comps.inside, true);
}

#[test]
fn hit_should_offset_the_point() {
    let r = Ray::new(p(0.0, 0.0, -5.0), v(0.0, 0.0, 1.0));
    let mut shape = Sphere::new();
    shape.set_transformation(translation(s(0.0), s(0.0), s(1.0)));
    let i = Intersection::new(s(5.0), &shape);

    let comps = i.prepare_computations(r);

    assert!(comps.over_point.2.lt(s(-0.00001 / 2.0)));
    assert!(comps.over_point.2.raw < -EPSILON_RAW / 2);
    assert!(comps.point.2.raw > comps.over_point.2.raw);
    assert_eq!(comps.over_point.2.raw, comps.point.2.raw - EPSILON_RAW);
    assert_eq!(comps.over_point.3, s(1.0));
    assert_eq!(comps.reflectv.3, s(0.0));
}
