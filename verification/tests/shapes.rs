use raytracer::materials::Material;
use raytracer::matrices::Matrix;
use raytracer::rays::Ray;
use raytracer::scalar::Scalar;
use raytracer::shapes::{Plane, Shape, ShapeKind, Sphere};
use raytracer::transformation::{rotation_z, scaling, translation};
use raytracer::tuples::{Point, Vector};
use std::f64::consts::PI;

fn s(x: f64) -> Scalar {
    Scalar { raw: (x * 4294967296.0).round() as i64 }
}

fn p(x: f64, y: f64, z: f64) -> Point {
    Point::new(s(x), s(y), s(z))
}

fn v(x: f64, y: f64, z: f64) -> Vector {
    Vector::new(s(x), s(y), s(z))
}

#[test]
fn shapes_default_transformation() {
    let shape = Shape::with_id(7, ShapeKind::Sphere);
    assert_eq!(shape.transformation, Matrix::identity());
    assert_eq!(shape.id, 7);
}

#[test]
fn shapes_assigning_transformation() {
    let mut shape = Shape::with_id(7, ShapeKind::Sphere);
    shape.set_transformation(translation(s(2.0), s(3.0), s(4.0)));
    assert_eq!(shape.transformation, translation(s(2.0), s(3.0), s(4.0)));
    assert_eq!(shape.transformation(), translation(s(2.0), s(3.0), s(4.0)));
}

#[test]
fn shapes_default_material() {
    let shape = Shape::with_id(7, ShapeKind::Sphere);
    assert_eq!(shape.material, Material::new());
}

#[test]
fn shapes_assigning_material() {
    let mut shape = Shape::with_id(7, ShapeKind::Sphere);

    let mut m = Material::new();
    m.ambient = s(1.0);

    shape.set_material(m.clone());

    assert_eq!(shape.material, m);
    assert_eq!(shape.material(), m);
}

#[test]
fn computing_normal_on_translated_shape() {
    let mut shape = Shape::with_id(7, ShapeKind::Sphere);

    shape.set_transformation(translation(s(0.0), s(1.0), s(0.0)));
    let n = shape.normal_at(p(0.0, 1.70711, -0.70711));

    assert_eq!(n, v(0.0, 0.70711, -0.70711));
}

#[test]
fn computing_normal_on_transformed_shape() {
    let mut shape = Shape::with_id(7, ShapeKind::Sphere);
    let m = scaling(s(1.0), s(0.5), s(1.0)).mul(rotation_z(s(PI / 5.0)));

    shape.set_transformation(m);
    let n = shape.normal_at(p(0.0, 2.0_f64.sqrt() / 2.0, -2.0_f64.sqrt() / 2.0));

    assert_eq!(n, v(0.0, 0.97014, -0.24254));
}

#[test]
fn plane_default_transformation() {
    let plane = Plane::new();
    assert_eq!(plane.transformation, Matrix::identity());
}

#[test]
fn plane_assigning_transformation() {
    let mut plane = Plane::new();
    plane.set_transformation(translation(s(2.0), s(3.0), s(4.0)));
    assert_eq!(plane.transformation, translation(s(2.0), s(3.0), s(4.0)));
}

#[test]
fn plane_default_material() {
    let plane = Plane::new();
    assert_eq!(plane.material, Material::new());
}

#[test]
fn plane_assigning_material() {
    let mut plane = Plane::new();

    let mut m = Material::new();
    m.ambient = s(1.0);

    plane.set_material(m.clone());

    assert_eq!(plane.material, m);
}

#[test]
fn normal_of_plane_is_constant_everywhere() {
    let plane = Plane::new();

    let n1 = plane.local_normal_at(Point::origin());
    let n2 = plane.local_normal_at(p(10.0, 0.0, -10.0));
    let n3 = plane.local_normal_at(p(-5.0, 0.0, 150.0));

    assert_eq!(n1, v(0.0, 1.0, 0.0));
    assert_eq!(n2, v(0.0, 1.0, 0.0));
    assert_eq!(n3, v(0.0, 1.0, 0.0));
}

#[test]
fn intersect_with_ray_parallel_to_plane() {
    let plane = Plane::new();
    let r = Ray::new(p(0.0, 10.0, 0.0), v(0.0, 0.0, 1.0));

    let xs = plane.local_intersect(r);

    assert_eq!(xs.len(), 0);
}

#[test]
fn intersect_with_coplanar_ray() {
    let plane = Plane::new();
    let r = Ray::new(Point::origin(), v(0.0, 0.0, 1.0));

    let xs = plane.local_intersect(r);

    assert_eq!(xs.len(), 0);
}

#[test]
fn ray_intersecting_plane_from_above() {
    let plane = Plane::new();
    let r = Ray::new(p(0.0, 1.0, 0.0), v(0.0, -1.0, 0.0));

    let xs = plane.local_intersect(r);

    assert_eq!(xs.len(), 1);
    assert_eq!(xs[0].t, s(1.0));
    assert!(xs[0].object.equals(&plane));
}

#[test]
fn ray_intersecting_plane_from_below() {
    let r = Ray::new(p(0.0, -1.0, 0.0), v(0.0, 1.0, 0.0));
    let plane = Plane::new();

    let xs = plane.local_intersect(r);

    assert_eq!(xs.len(), 1);
    assert_eq!(xs[0].t, s(1.0));
    assert!(xs[0].object.equals(&plane));
}

#[test]
fn ray_that_hardly_rises_misses_the_plane() {
    let plane = Plane::new();

    let flat = Ray::new(p(0.0, 1.0, 0.0), v(1.0, -0.000009, 0.0));
    let steep = Ray::new(p(0.0, 1.0, 0.0), v(1.0, -0.0000152587890625, 0.0));

    assert_eq!(plane.local_intersect(flat).len(), 0);
    assert_eq!(plane.local_intersect(steep).len(), 1);
    assert_eq!(plane.local_intersect(steep)[0].t, s(65536.0));
}

#[test]
fn sphere_default_transformation() {
    let sphere = Sphere::new();
    assert_eq!(sphere.transformation, Matrix::identity());
}

#[test]
fn sphere_assigning_transformation() {
    let mut sphere = Sphere::new();
    sphere.set_transformation(translation(s(2.0), s(3.0), s(4.0)));
    assert_eq!(sphere.transformation, translation(s(2.0), s(3.0), s(4.0)));
}

#[test]
fn sphere_default_material() {
    let sphere = Sphere::new();
    assert_eq!(sphere.material, Material::new());
}

#[test]
fn sphere_assigning_material() {
    let mut sphere = Sphere::new();

    let mut m = Material::new();
    m.ambient = s(1.0);

    sphere.material = m.clone();

    assert_eq!(sphere.material, m);
}

#[test]
fn sphere_ray_intersects_sphere_at_two_points() {
    let r = Ray::new(p(0.0, 0.0, -5.0), v(0.0, 0.0, 1.0));
    let sphere = Sphere::new();

    let xs = sphere.intersect(r);

    assert_eq!(xs.len(), 2);
    assert_eq!(xs[0].t, s(4.0));
    assert_eq!(xs[1].t, s(6.0));
}

#[test]
fn sphere_ray_intersects_sphere_at_tangent() {
    let r = Ray::new(p(0.0, 1.0, -5.0), v(0.0, 0.0, 1.0));
    let sphere = Sphere::new();

    let xs = sphere.intersect(r);

    assert_eq!(xs.len(), 2);
    assert_eq!(xs[0].t, s(5.0));
    assert_eq!(xs[1].t, s(5.0));
}

#[test]
fn sphere_ray_misses_sphere() {
    let r = Ray::new(p(0.0, 2.0, -5.0), v(0.0, 0.0, 1.0));
    let sphere = Sphere::new();

    let xs = sphere.intersect(r);

    assert_eq!(xs.len(), 0);
}

#[test]
fn sphere_ray_originates_inside_sphere() {
    let r = Ray::new(Point::origin(), v(0.0, 0.0, 1.0));
    let sphere = Sphere::new();

    let xs = sphere.intersect(r);

    assert_eq!(xs.len(), 2);
    assert_eq!(xs[0].t, s(-1.0));
    assert_eq!(xs[1].t, s(1.0));
}

#[test]
fn sphere_sphere_behind_ray() {
    let r = Ray::new(p(0.0, 0.0, 5.0), v(0.0, 0.0, 1.0));
    let sphere = Sphere::new();

    let xs = sphere.intersect(r);

    assert_eq!(xs.len(), 2);
    assert_eq!(xs[0].t, s(-6.0));
    assert_eq!(xs[1].t, s(-4.0));
}

#[test]
fn sphere_intersect_sets_object_on_intersection() {
    let r = Ray::new(p(0.0, 0.0, 5.0), v(0.0, 0.0, 1.0));
    let sphere = Sphere::new();

    let xs = sphere.intersect(r);

    assert_eq!(xs.len(), 2);
    assert!(xs[0].object.equals(&sphere));
    assert!(xs[1].object.equals(&sphere));
    assert!(xs[0].object.is_same(&sphere));
    assert!(xs[1].object.is_same(&sphere));
    assert_eq!(xs[0].object.id, sphere.id);
}

#[test]
fn sphere_changing_sphere_transformation() {
    let mut sphere = Sphere::new();

    assert_eq!(sphere.transformation, Matrix::identity());

    let t = translation(s(2.0), s(3.0), s(4.0));

    sphere.set_transformation(t.clone());

    assert_eq!(sphere.transformation, t);
}

#[test]
fn sphere_intersecting_scaled_sphere() {
    let r = Ray::new(p(0.0, 0.0, -5.0), v(0.0, 0.0, 1.0));
    let mut sphere = Sphere::new();

    sphere.set_transformation(scaling(s(2.0), s(2.0), s(2.0)));
    let xs = sphere.intersect(r);

    assert_eq!(xs.len(), 2);
    assert_eq!(xs[0].t, s(3.0));
    assert_eq!(xs[1].t, s(7.0));
}

#[test]
fn sphere_intersecting_translated_sphere() {
    let r = Ray::new(p(0.0, 0.0, -5.0), v(0.0, 0.0, 1.0));
    let mut sphere = Sphere::new();

    sphere.set_transformation(translation(s(5.0), s(0.0), s(0.0)));
    let xs = sphere.intersect(r);

    assert_eq!(xs.len(), 0);
}

#[test]
fn sphere_the_normal_on_sphere() {
    let sphere = Sphere::new();

    let n = sphere.normal_at(p(1.0, 0.0, 0.0));
    assert_eq!(n, v(1.0, 0.0, 0.0));

    let n = sphere.normal_at(p(0.0, 1.0, 0.0));
    assert_eq!(n, v(0.0, 1.0, 0.0));

    let n = sphere.normal_at(p(0.0, 0.0, 1.0));
    assert_eq!(n, v(0.0, 0.0, 1.0));

    let third = 3.0_f64.sqrt() / 3.0;
    let n = sphere.normal_at(p(third, third, third));
    assert_eq!(n, v(third, third, third));
}

#[test]
fn sphere_normal_is_normalized_vector() {
    let sphere = Sphere::new();
    let third = 3.0_f64.sqrt() / 3.0;

    let n = sphere.normal_at(p(third, third, third));

    assert_eq!(n, n.normalize());
    assert!(n.magnitude().sub(s(1.0)).abs().lt(Scalar::epsilon()));
}

#[test]
fn sphere_computing_normal_on_translated_sphere() {
    let mut sphere = Sphere::new();
    sphere.set_transformation(translation(s(0.0), s(1.0), s(0.0)));

    let n = sphere.normal_at(p(0.0, 1.70711, -0.70711));

    assert_eq!(n, v(0.0, 0.70711, -0.70711));
}

#[test]
fn sphere_computing_normal_on_transformed_sphere() {
    let mut sphere = Sphere::new();
    let m = scaling(s(1.0), s(0.5), s(1.0)).mul(rotation_z(s(PI / 5.0)));
    sphere.set_transformation(m);

    let n = sphere.normal_at(p(0.0, 2.0_f64.sqrt() / 2.0, -2.0_f64.sqrt() / 2.0));

    assert_eq!(n, v(0.0, 0.97014, -0.24254));
}

#[test]
fn sphere_sphere_has_default_material() {
    let sphere = Sphere::new();

    assert_eq!(sphere.material, Material::new());
}

#[test]
fn every_new_shape_has_an_identifier_of_its_own() {
    let a = Sphere::new();
    let b = Sphere::new();
    let c = Plane::new();

    assert!(a.equals(&b));
    assert!(!a.is_same(&b));
    assert!(!a.is_same(&c));
    assert!(!a.equals(&c));
    assert!(a.is_same(&a.clone()));
    for id in [a.id, b.id, c.id] {
        assert_eq!((id >> 76) & 0xf, 4);
        assert_eq!((id >> 62) & 0x3, 2);
    }
    assert_eq!(a.kind, ShapeKind::Sphere);
    assert_eq!(c.kind, ShapeKind::Plane);
}

#[test]
fn shape_with_a_matrix_without_inverse_is_not_valid() {
    let mut shape = Sphere::new();
    assert!(shape.is_valid());
    shape.set_transformation(scaling(s(1.0), s(0.0), s(1.0)));
    assert!(!shape.is_valid());
    shape.set_transformation(Matrix::from_vec(vec![vec![s(1.0), s(0.0)], vec![s(0.0), s(1.0)]]));
    assert!(!shape.is_valid());
}

#[test]
fn intersecting_scaled_shape_with_ray() {
    let r = Ray::new(p(0.0, 0.0, -5.0), v(0.0, 0.0, 1.0));
    let mut shape = Shape::with_id(7, ShapeKind::Sphere);

    shape.set_transformation(scaling(s(2.0), s(2.0), s(2.0)));
    let local_ray = r.transform(shape.transformation.inverse());

    assert_eq!(local_ray.origin, Point(s(0.0), s(0.0), s(-2.5), s(1.0)));
    assert_eq!(local_ray.direction, Vector(s(0.0), s(0.0), s(0.5), s(0.0)));
    let xs = shape.intersect(r);
    let local = shape.local_intersect(local_ray);
    assert_eq!(xs.len(), local.len());
    assert_eq!(xs[0].t, local[0].t);
    assert_eq!(xs[1].t, local[1].t);
}

#[test]
fn intersecting_translated_shape_with_ray() {
    let r = Ray::new(p(0.0, 0.0, -5.0), v(0.0, 0.0, 1.0));
    let mut shape = Shape::with_id(7, ShapeKind::Sphere);

    shape.set_transformation(translation(s(5.0), s(0.0), s(0.0)));
    let local_ray = r.transform(shape.transformation.inverse());

    assert_eq!(local_ray.origin, Point(s(-5.0), s(0.0), s(-5.0), s(1.0)));
    assert_eq!(local_ray.direction, Vector(s(0.0), s(0.0), s(1.0), s(0.0)));
    assert_eq!(shape.intersect(r).len(), shape.local_intersect(local_ray).len());
}
