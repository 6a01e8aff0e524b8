use raytracer::color::Color;
use raytracer::lights::PointLight;
use raytracer::materials::Material;
use raytracer::patterns::{Solid, Stripe};
use raytracer::scalar::Scalar;
use raytracer::shapes::Sphere;
use raytracer::tuples::{Point, Vector};

fn s(x: f64) -> Scalar {
    Scalar { raw: (x * 4294967296.0).round() as i64 }
}

fn c(r: f64, g: f64, b: f64) -> Color {
    Color(s(r), s(g), s(b))
}

fn p(x: f64, y: f64, z: f64) -> Point {
    Point::new(s(x), s(y), s(z))
}

fn v(x: f64, y: f64, z: f64) -> Vector {
    Vector::new(s(x), s(y), s(z))
}

fn position() -> Point {
    Point(s(0.0), s(0.0), s(0.0), s(1.0))
}

#[test]
fn materials_default_material() {
    let m = Material::new();

    assert_eq!(m.ambient, s(0.1));
    assert_eq!(m.diffuse, s(0.9));
    assert_eq!(m.specular, s(0.9));
    assert_eq!(m.shininess, s(200.0));
    assert_eq!(m.reflective, s(0.0));
    assert_eq!(m.transparency, s(0.0));
    assert_eq!(m.refractive_index, s(1.0));
    assert!(m.pattern.equals(&Solid::new(Color::white())));
}

#[test]
fn lighting_with_the_surface_in_shadow() {
    let m: Material = Material::new();
    let eyev = v(0.0, 0.0, -1.0);
    let normalv = v(0.0, 0.0, -1.0);
    let light = PointLight::new(p(0.0, 0.0, -10.0), Color::white());
    let sphere = Sphere::new();

    let result = m.lighting(&light, position(), eyev, normalv, false, &sphere);

    assert_eq!(result, c(1.9, 1.9, 1.9));
}

#[test]
fn lighting_with_eye_between_light_and_surface_with_eye_offset_45deg() {
    let m: Material = Material::new();
    let eyev = v(0.0, 2.0_f64.sqrt() / 2.0, -2.0_f64.sqrt() / 2.0);
    let normalv = v(0.0, 0.0, -1.0);
    let light = PointLight::new(p(0.0, 0.0, -10.0), Color::white());
    let sphere = Sphere::new();

    let result = m.lighting(&light, position(), eyev, normalv, true, &sphere);

    assert_eq!(result, c(0.1, 0.1, 0.1));
}

#[test]
fn lighting_with_eye_opposite_surface_with_light_offset_45deg() {
    let m: Material = Material::new();
    let eyev = v(0.0, 0.0, -1.0);
    let normalv = v(0.0, 0.0, -1.0);
    let light = PointLight::new(p(0.0, 10.0, -10.0), Color::white());
    let sphere = Sphere::new();

    let result = m.lighting(&light, position(), eyev, normalv, false, &sphere);

    assert_eq!(result, c(0.7364, 0.7364, 0.7364));
}

#[test]
fn lighting_with_eye_in_path_of_reflection_vector() {
    let m: Material = Material::new();
    let eyev = v(0.0, -2.0_f64.sqrt() / 2.0, -2.0_f64.sqrt() / 2.0);
    let normalv = v(0.0, 0.0, -1.0);
    let light = PointLight::new(p(0.0, 10.0, -10.0), Color::white());
    let sphere = Sphere::new();

    let result = m.lighting(&light, position(), eyev, normalv, false, &sphere);

    assert_eq!(result, c(1.6364, 1.6364, 1.6364));
}

#[test]
fn lighting_with_light_behind_the_surface() {
    let m: Material = Material::new();
    let eyev = v(0.0, 0.0, -1.0);
    let normalv = v(0.0, 0.0, -1.0);
    let light = PointLight::new(p(0.0, 0.0, 10.0), Color::white());
    let sphere = Sphere::new();

    let result = m.lighting(&light, position(), eyev, normalv, false, &sphere);

    assert_eq!(result, c(0.1, 0.1, 0.1));
}

#[test]
fn lighting_with_pattern_applied() {
    let mut m = Material::new();
    m.pattern =
        Stripe::new(Box::new(Solid::new(Color::white())), Box::new(Solid::new(Color::black())));
    m.ambient = s(1.0);
    m.diffuse = s(0.0);
    m.specular = s(0.0);

    let eyev = v(0.0, 0.0, -1.0);
    let normalv = v(0.0, 0.0, -1.0);
    let light = PointLight::new(p(0.0, 0.0, -10.0), Color::white());
    let sphere = Sphere::new();

    let c1 = m.lighting(&light, p(0.9, 0.0, 0.0), eyev, normalv, false, &sphere);
    let c2 = m.lighting(&light, p(1.1, 0.0, 0.0), eyev, normalv, false, &sphere);

    assert_eq!(c1, Color::white());
    assert_eq!(c2, Color::black());
}

#[test]
fn lighting_in_shadow_is_the_ambient_part_alone() {
    let mut m = Material::new();
    m.pattern = Solid::new(c(0.5, 0.25, 1.0));
    m.ambient = s(0.5);
    let light = PointLight::new(p(0.0, 10.0, -10.0), c(1.0, 0.5, 0.5));
    let sphere = Sphere::new();

    let result =
        m.lighting(&light, position(), v(0.0, 0.0, -1.0), v(0.0, 0.0, -1.0), true, &sphere);

    assert_eq!(result, c(0.25, 0.0625, 0.25));
}

#[test]
fn specular_part_follows_the_shininess() {
    let mut m = Material::new();
    m.ambient = s(0.0);
    m.diffuse = s(0.0);
    m.specular = s(1.0);
    m.shininess = s(2.0);
    let light = PointLight::new(p(0.0, 10.0, -10.0), Color::white());
    let sphere = Sphere::new();
    let eyev = v(0.0, -0.6, -0.8);

    let result = m.lighting(&light, position(), eyev, v(0.0, 0.0, -1.0), false, &sphere);

    // the mirrored light is (0, -0.70711, -0.70711): its cosine with the eye is 0.98995
    assert_eq!(result, c(0.98, 0.98, 0.98));

    m.shininess = s(0.5);
    let result = m.lighting(&light, position(), eyev, v(0.0, 0.0, -1.0), false, &sphere);
    assert_eq!(result, c(0.99496, 0.99496, 0.99496));
}

#[test]
fn materials_are_equal_by_coefficients_and_pattern() {
    let m = Material::new();
    let mut other = Material::new();

    assert_eq!(m, other);
    assert_eq!(m, m.clone());
    other.ambient = s(1.0);
    assert_ne!(m, other);
    other.ambient = s(0.1);
    other.pattern = Solid::new(Color::black());
    assert_ne!(m, other);
}
