use raytracer::camera::Camera;
use raytracer::color::Color;
use raytracer::matrices::Matrix;
use raytracer::scalar::Scalar;
use raytracer::transformation::{rotation_y, scaling, translation, view_transform};
use raytracer::tuples::{Point, Vector};
use raytracer::world::World;
use std::f64::consts::PI;

fn s(x: f64) -> Scalar {
    Scalar { raw: (x * 4294967296.0).round() as i64 }
}

fn c(r: f64, g: f64, b: f64) -> Color {
    Color(s(r), s(g), s(b))
}

fn p(x: f64, y: f64, z: f64) -> Point {
    Point::new(s(x), s(y), s(z))
}

fn v(x: f64, y: f64, z: f64) -> Vector {
    Vector::new(s(x), s(y), s(z))
}

#[test]
fn constructing_camera() {
    let hsize = 160;
    let vsize = 120;
    let field_of_view = s(PI / 2.0);

    let camera = Camera::new(hsize, vsize, field_of_view);

    assert_eq!(camera.hsize, 160);
    assert_eq!(camera.vsize, 120);
    assert_eq!(camera.field_of_view, s(PI / 2.0));
    assert_eq!(camera.transform, Matrix::identity());
}

#[test]
fn pixel_size_for_canvas() {
    let camera = Camera::new(200, 125, s(PI / 2.0));
    assert!(camera.pixel_size.sub(s(0.01)).abs().lt(Scalar::epsilon()));

    let camera = Camera::new(125, 200, s(PI / 2.0));
    assert!(camera.pixel_size.sub(s(0.01)).abs().lt(Scalar::epsilon()));
}

#[test]
fn canvas_halves_follow_the_longer_side() {
    let wide = Camera::new(200, 100, s(PI / 2.0));
    assert!(wide.half_width.approx_eq(s(1.0)));
    assert!(wide.half_height.approx_eq(s(0.5)));

    let tall = Camera::new(100, 200, s(PI / 2.0));
    assert!(tall.half_width.approx_eq(s(0.5)));
    assert!(tall.half_height.approx_eq(s(1.0)));

    let square = Camera::new(50, 50, s(PI / 3.0));
    assert!(square.half_width.approx_eq(s(0.57735)));
    assert!(square.half_height.approx_eq(s(0.57735)));
    assert!(square.pixel_size.approx_eq(s(0.023094)));
}

#[test]
fn constructing_ray_through_center_of_canvas() {
    let camera = Camera::new(201, 101, s(PI / 2.0));
    let r = camera.ray_for_pixel(s(100.0), s(50.0));

    assert_eq!(r.origin, Point::origin());
    assert_eq!(r.direction, v(0.0, 0.0, -1.0));
}

#[test]
fn constructing_ray_through_corner_of_canvas() {
    let camera = Camera::new(201, 101, s(PI / 2.0));
    let r = camera.ray_for_pixel(s(0.0), s(0.0));

    assert_eq!(r.origin, Point::origin());
    assert_eq!(r.direction, v(0.66519, 0.33259, -0.66851));
}

#[test]
fn constructing_ray_when_camera_transformed() {
    let mut camera = Camera::new(201, 101, s(PI / 2.0));
    camera.transform = rotation_y(s(PI / 4.0)).mul(translation(s(0.0), s(-2.0), s(5.0)));

    let r = camera.ray_for_pixel(s(100.0), s(50.0));

    assert_eq!(r.origin, p(0.0, 2.0, -5.0));
    assert_eq!(r.direction, v(2.0_f64.sqrt() / 2.0, 0.0, -2.0_f64.sqrt() / 2.0));
    assert_eq!(r.origin.3, s(1.0));
    assert_eq!(r.direction.3, s(0.0));
}

#[test]
fn rendering_world_with_camera() {
    let w = World::default();
    let mut camera = Camera::new(11, 11, s(PI / 2.0));
    let from = p(0.0, 0.0, -5.0);
    let to = Point::origin();
    let up = v(0.0, 1.0, 0.0);
    camera.transform = view_transform(from, to, up);

    let image = camera.render(w);

    assert_eq!(image.pixel_at(5, 5), c(0.38066, 0.47583, 0.2855));
    assert_eq!(image.width, 11);
    assert_eq!(image.height, 11);
    assert_eq!(image.pixel_at(0, 0), Color::black());
}

#[test]
fn rendering_is_refused_where_the_scene_is_not_valid() {
    let mut camera = Camera::new(3, 2, s(PI / 2.0));
    assert!(camera.is_valid());
    let image = camera.try_render(World::default()).unwrap();
    assert_eq!(image.width, 3);
    assert_eq!(image.height, 2);

    let mut camera2 = Camera::new(3, 2, s(PI / 2.0));
    camera2.transform = scaling(s(1.0), s(0.0), s(1.0));
    assert!(!camera2.is_valid());
    assert!(camera2.try_render(World::default()).is_none());

    let mut broken = World::default();
    broken.objects[0].set_transformation(scaling(s(0.0), s(1.0), s(1.0)));
    camera.transform = view_transform(p(0.0, 0.0, -5.0), Point::origin(), v(0.0, 1.0, 0.0));
    assert!(camera.try_render(broken).is_none());

    let mut skewed = Camera::new(3, 2, s(PI / 2.0));
    skewed.transform = Matrix::from_vec(vec![
        vec![s(1.0), s(0.0), s(0.0), s(0.0)],
        vec![s(0.0), s(1.0), s(0.0), s(0.0)],
        vec![s(0.0), s(0.0), s(1.0), s(0.0)],
        vec![s(0.0), s(0.0), s(1.0), s(1.0)],
    ]);
    assert!(skewed.transform.is_transformation());
    assert!(!skewed.is_valid());
}
