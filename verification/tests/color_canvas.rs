use raytracer::canvas::{clamp_and_scale_color_value, Canvas};
use raytracer::color::Color;
use raytracer::lights::PointLight;
use raytracer::rays::Ray;
use raytracer::scalar::Scalar;
use raytracer::transformation::{scaling, translation};
use raytracer::tuples::{Point, Vector};

fn s(x: f64) -> Scalar {
    Scalar { raw: (x * 4294967296.0).round() as i64 }
}

fn c(r: f64, g: f64, b: f64) -> Color {
    Color(s(r), s(g), s(b))
}

fn p(x: f64, y: f64, z: f64) -> Point {
    Point::new(s(x), s(y), s(z))
}

fn v(x: f64, y: f64, z: f64) -> Vector {
    Vector::new(s(x), s(y), s(z))
}

#[test]
fn adding_colors() {
    assert_eq!(c(0.9, 0.6, 0.75).add(c(0.7, 0.1, 0.25)), c(1.6, 0.7, 1.0));
}

#[test]
fn subtracting_colors() {
    assert_eq!(c(0.9, 0.6, 0.75).sub(c(0.7, 0.1, 0.25)), c(0.2, 0.5, 0.5));
}

#[test]
fn multiplying_color_by_scalar() {
    assert_eq!(c(0.2, 0.3, 0.4).mul(s(2.0)), c(0.4, 0.6, 0.8));
}

#[test]
fn multiplying_colors() {
    assert_eq!(c(1.0, 0.2, 0.4).hadamard(c(0.9, 1.0, 0.1)), c(0.9, 0.2, 0.04));
}

#[test]
fn colors_by_name() {
    assert_eq!(Color::white(), c(1.0, 1.0, 1.0));
    assert_eq!(Color::black(), c(0.0, 0.0, 0.0));
    assert_eq!(Color::new(s(0.5), s(0.25), s(0.125)), c(0.5, 0.25, 0.125));
    assert_ne!(Color::white(), c(1.0, 1.0, 0.9999));
    assert_eq!(Color::white(), c(1.0, 1.0, 0.999999));
}

#[test]
fn creating_canvas() {
    let canvas = Canvas::new(10, 20);

    assert_eq!(canvas.width, 10);
    assert_eq!(canvas.height, 20);
    assert_eq!(canvas.pixel_at(0, 0), c(0.0, 0.0, 0.0));
    assert_eq!(canvas.pixel_at(9, 19), c(0.0, 0.0, 0.0));
}

#[test]
fn writing_pixels_to_canvas() {
    let mut canvas = Canvas::new(10, 20);
    let red = c(1.0, 0.0, 0.0);

    canvas.write_pixel(2, 3, red);

    assert_eq!(canvas.pixel_at(2, 3), red);
    assert_eq!(canvas.pixel_at(3, 2), c(0.0, 0.0, 0.0));
    assert_eq!(canvas.pixel_at(2, 2), c(0.0, 0.0, 0.0));
}

#[test]
fn constructing_ppm_header() {
    let canvas = Canvas::new(5, 3);
    let ppm = canvas.construct_ppm_header();
    let expected_literal = "P3\n5 3\n255";

    assert_eq!(ppm, String::from(expected_literal));
}

#[test]
fn constructing_ppm_pixel_data() {
    let mut canvas = Canvas::new(5, 3);

    canvas.write_pixel(0, 0, c(1.5, 0.0, 0.0));
    canvas.write_pixel(2, 1, c(0.0, 0.5, 0.0));
    canvas.write_pixel(4, 2, c(-0.5, 0.0, 1.0));

    let ppm = canvas.construct_ppm_body();
    let expected_literal = "255 0 0 0 0 0 0 0 0 0 0 0 0 0 0\n0 0 0 0 0 0 0 128 0 0 0 0 0 0 0\n0 0 0 0 0 0 0 0 0 0 0 0 0 0 255\n";

    assert_eq!(ppm, String::from(expected_literal));
}

#[test]
fn splitting_long_lines() {
    let canvas = Canvas::with_filled_color(10, 2, c(1.0, 0.8, 0.6));

    let ppm = canvas.construct_ppm_body();
    let expected_literal = "255 204 153 255 204 153 255 204 153 255 204 153 255 204 153\n255 204 153 255 204 153 255 204 153 255 204 153 255 204 153\n255 204 153 255 204 153 255 204 153 255 204 153 255 204 153\n255 204 153 255 204 153 255 204 153 255 204 153 255 204 153\n";

    assert_eq!(ppm, String::from(expected_literal));
}

#[test]
fn whole_ppm_has_header_blank_line_and_body() {
    let mut canvas = Canvas::new(2, 1);
    canvas.write_pixel(1, 0, c(0.0, 1.0, 0.2));

    assert_eq!(canvas.construct_ppm(), String::from("P3\n2 1\n255\n0 0 0 0 255 51\n"));
}

#[test]
fn no_line_of_pixel_data_is_longer_than_seventy() {
    let mut canvas = Canvas::with_filled_color(23, 3, c(1.0, 1.0, 1.0));
    canvas.write_pixel(3, 1, c(0.0, 0.0, 0.0));
    canvas.write_pixel(4, 1, c(0.02, 0.0, 0.5));
    canvas.write_pixel(11, 2, c(0.0, 0.04, 0.0));

    let ppm = canvas.construct_ppm_body();

    assert!(ppm.ends_with('\n'));
    for line in ppm.lines() {
        assert!(line.len() <= 70);
        assert!(!line.ends_with(' '));
        assert!(!line.starts_with(' '));
        assert_eq!(line.split(' ').count() % 3, 0);
    }
    assert_eq!(ppm.split_whitespace().count(), 23 * 3 * 3);
}

#[test]
fn canvas_without_columns_writes_empty_lines() {
    let canvas = Canvas::new(0, 2);

    assert_eq!(canvas.construct_ppm_body(), String::from("\n\n"));
    assert_eq!(Canvas::new(3, 0).construct_ppm_body(), String::from(""));
    assert_eq!(Canvas::new(3, 0).construct_ppm_header(), String::from("P3\n3 0\n255"));
    assert_eq!(Canvas::new(1234, 10).construct_ppm_header(), String::from("P3\n1234 10\n255"));
}

#[test]
fn color_parts_are_clamped_and_rounded() {
    assert_eq!(clamp_and_scale_color_value(s(-0.5)), 0);
    assert_eq!(clamp_and_scale_color_value(s(0.0)), 0);
    assert_eq!(clamp_and_scale_color_value(s(0.5)), 128);
    assert_eq!(clamp_and_scale_color_value(s(0.8)), 204);
    assert_eq!(clamp_and_scale_color_value(s(0.6)), 153);
    assert_eq!(clamp_and_scale_color_value(s(1.0)), 255);
    assert_eq!(clamp_and_scale_color_value(s(1.5)), 255);
    assert_eq!(clamp_and_scale_color_value(s(0.001)), 0);
    assert_eq!(clamp_and_scale_color_value(s(0.002)), 1);
    assert_eq!(clamp_and_scale_color_value(s(0.998)), 254);
    assert_eq!(clamp_and_scale_color_value(s(0.9981)), 255);
}

#[test]
fn point_light_has_position_and_intensity() {
    let intensity = c(1.0, 1.0, 1.0);
    let position = p(0.0, 0.0, 0.0);

    let light = PointLight::new(position, intensity);

    assert_eq!(light.position, position);
    assert_eq!(light.intensity, intensity);
}

#[test]
fn creating_and_querying_ray() {
    let origin = p(1.0, 2.0, 3.0);
    let direction = v(4.0, 5.0, 6.0);

    let r = Ray { origin, direction };

    assert_eq!(r.origin, origin);
    assert_eq!(r.direction, direction);
}

#[test]
fn computing_point_from_distance() {
    let r = Ray { origin: p(2.0, 3.0, 4.0), direction: v(1.0, 0.0, 0.0) };

    assert_eq!(r.position(s(0.0)), p(2.0, 3.0, 4.0));
    assert_eq!(r.position(s(1.0)), p(3.0, 3.0, 4.0));
    assert_eq!(r.position(s(-1.0)), p(1.0, 3.0, 4.0));
    assert_eq!(r.position(s(2.5)), p(4.5, 3.0, 4.0));
}

#[test]
fn translating_ray() {
    let r = Ray::new(p(1.0, 2.0, 3.0), v(0.0, 1.0, 0.0));
    let m = translation(s(3.0), s(4.0), s(5.0));

    let r2 = r.transform(m);

    assert_eq!(r2.origin, p(4.0, 6.0, 8.0));
    assert_eq!(r2.direction, v(0.0, 1.0, 0.0));
}

#[test]
fn scaling_ray() {
    let r = Ray::new(p(1.0, 2.0, 3.0), v(0.0, 1.0, 0.0));
    let m = scaling(s(2.0), s(3.0), s(4.0));

    let r2 = r.transform(m);

    assert_eq!(r2.origin, p(2.0, 6.0, 12.0));
    assert_eq!(r2.direction, v(0.0, 3.0, 0.0));
}

#[test]
fn position_follows_a_transformed_ray() {
    let r = Ray::new(p(1.0, 2.0, 3.0), v(0.0, 1.0, 0.5));
    let m = translation(s(3.0), s(4.0), s(5.0)).mul(scaling(s(2.0), s(3.0), s(4.0)));

    assert_eq!(r.transform(m).position(s(2.5)), m.mul_point(r.position(s(2.5))));
}
