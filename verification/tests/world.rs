use raytracer::color::Color;
use raytracer::constants::MAX_REFLECTION_DEPTH;
use raytracer::intersection::Intersection;
use raytracer::lights::PointLight;
use raytracer::materials::Material;
use raytracer::rays::Ray;
use raytracer::scalar::Scalar;
use raytracer::shapes::{Plane, Sphere};
use raytracer::transformation::{scaling, translation};
use raytracer::tuples::{Point, Vector};
use raytracer::world::{sort_by_t, World};

fn s(x: f64) -> Scalar {
    Scalar { raw: (x * 4294967296.0).round() as i64 }
}

fn c(r: f64, g: f64, b: f64) -> Color {
    Color(s(r), s(g), s(b))
}

fn p(x: f64, y: f64, z: f64) -> Point {
    Point::new(s(x), s(y), s(z))
}

fn v(x: f64, y: f64, z: f64) -> Vector {
    Vector::new(s(x), s(y), s(z))
}

#[test]
fn creating_world() {
    let w = World::new();

    assert_eq!(w.objects.len(), 0);
    assert_eq!(w.light.intensity, Color::black());
}

#[test]
fn default_world_has_its_light_and_two_spheres() {
    let w = World::default();

    assert_eq!(w.light.position, p(-10.0, 10.0, -10.0));
    assert_eq!(w.light.intensity, Color::white());
    assert_eq!(w.objects.len(), 2);
    assert_eq!(w.objects[0].material.diffuse, s(0.7));
    assert_eq!(w.objects[0].material.specular, s(0.2));
    assert_eq!(w.objects[0].material.pattern.at(Point::origin()), c(0.8, 1.0, 0.6));
    assert_eq!(w.objects[1].transformation, scaling(s(0.5), s(0.5), s(0.5)));
    assert_eq!(w.objects[1].material, Material::new());
    assert!(w.is_valid());
}

#[test]
fn intersect_world_with_ray() {
    let w = World::default();
    let r = Ray::new(p(0.0, 0.0, -5.0), v(0.0, 0.0, 1.0));

    let xs = w.intersect(r);

    assert_eq!(xs.len(), 4);
    assert_eq!(xs[0].t, s(4.0));
    assert_eq!(xs[1].t, s(4.5));
    assert_eq!(xs[2].t, s(5.5));
    assert_eq!(xs[3].t, s(6.0));
    assert!(xs[0].object.is_same(&w.objects[0]));
    assert!(xs[1].object.is_same(&w.objects[1]));
    assert!(xs[2].object.is_same(&w.objects[1]));
    assert!(xs[3].object.is_same(&w.objects[0]));
}

#[test]
fn sorting_keeps_the_order_of_equal_distances() {
    let a = Sphere::new();
    let b = Sphere::new();
    let xs = vec![
        Intersection::new(s(2.0), &a),
        Intersection::new(s(-1.0), &a),
        Intersection::new(s(2.0), &b),
        Intersection::new(s(0.5), &b),
        Intersection::new(s(-1.0), &b),
    ];

    let sorted = sort_by_t(xs);

    assert_eq!(sorted.len(), 5);
    assert_eq!(sorted[0].t, s(-1.0));
    assert!(sorted[0].object.is_same(&a));
    assert_eq!(sorted[1].t, s(-1.0));
    assert!(sorted[1].object.is_same(&b));
    assert_eq!(sorted[2].t, s(0.5));
    assert_eq!(sorted[3].t, s(2.0));
    assert!(sorted[3].object.is_same(&a));
    assert_eq!(sorted[4].t, s(2.0));
    assert!(sorted[4].object.is_same(&b));
}

#[test]
fn shading_intersection() {
    let w = World::default();
    let r = Ray::new(p(0.0, 0.0, -5.0), v(0.0, 0.0, 1.0));
    let shape = &w.objects[0];
    let i = Intersection { t: s(4.0), object: shape };

    let comps = i.prepare_computations(r);
    let color = w.shade_hit(comps, MAX_REFLECTION_DEPTH);

    assert_eq!(color, c(0.38066, 0.47583, 0.2855));
}

#[test]
fn shading_intersection_from_inside() {
    let mut w = World::default();
    w.light = PointLight::new(p(0.0, 0.25, 0.0), Color::white());
    let r = Ray::new(Point::origin(), v(0.0, 0.0, 1.0));
    let shape = &w.objects[1];
    let i = Intersection { t: s(0.5), object: shape };

    let comps = i.prepare_computations(r);
    let color = w.shade_hit(comps, MAX_REFLECTION_DEPTH);

    assert_eq!(color, c(0.90498, 0.90498, 0.90498));
}

#[test]
fn color_when_ray_misses() {
    let w = World::default();
    let r = Ray::new(p(0.0, 0.0, -5.0), v(0.0, 1.0, 0.0));

    let color = w.color_at(r, MAX_REFLECTION_DEPTH);

    assert_eq!(color, Color::black());
}

#[test]
fn color_when_ray_hits() {
    let w = World::default();
    let r = Ray::new(p(0.0, 0.0, -5.0), v(0.0, 0.0, 1.0));

    let color = w.color_at(r, MAX_REFLECTION_DEPTH);

    assert_eq!(color, c(0.38066, 0.47583, 0.2855));
}

#[test]
fn color_with_intersection_behind_ray() {
    let mut w = World::default();

    let mut m = Material::new();
    m.ambient = s(1.0);

    w.objects[1].set_material(m);

    let r = Ray::new(p(0.0, 0.0, 0.75), v(0.0, 0.0, -1.0));

    let color = w.color_at(r, MAX_REFLECTION_DEPTH);

    assert_eq!(color, w.objects[1].material().pattern.at(p(0.0, 0.0, 0.75)));
}

#[test]
fn reflected_color_for_nonreflective_material() {
    let mut w = World::default();
    let r = Ray::new(Point::origin(), v(0.0, 0.0, 1.0));

    let mut material = Material::new();
    material.ambient = s(1.0);
    w.objects[1].set_material(material);

    let i = Intersection::new(s(1.0), &w.objects[1]);

    let comps = i.prepare_computations(r);
    let color = w.reflected_color(comps, MAX_REFLECTION_DEPTH);

    assert_eq!(color, Color::black());
}

fn world_with_mirror_floor() -> World {
    let mut shape = Plane::new();
    shape.material.reflective = s(0.5);
    shape.set_transformation(translation(s(0.0), s(-1.0), s(0.0)));

    let mut w = World::default();
    w.objects.push(shape);
    w
}

#[test]
fn reflected_color_for_reflective_material() {
    let w = world_with_mirror_floor();

    let r = Ray::new(p(0.0, 0.0, -3.0), v(0.0, -(2.0_f64.sqrt() / 2.0), 2.0_f64.sqrt() / 2.0));

    let i = Intersection::new(s(2.0_f64.sqrt()), &w.objects[2]);

    let comps = i.prepare_computations(r);
    let color = w.reflected_color(comps, MAX_REFLECTION_DEPTH);

    assert_eq!(color, c(0.19033, 0.23792, 0.14275));
}

#[test]
fn shade_hit_with_reflective_material() {
    let w = world_with_mirror_floor();

    let r = Ray::new(p(0.0, 0.0, -3.0), v(0.0, -(2.0_f64.sqrt() / 2.0), 2.0_f64.sqrt() / 2.0));
    let i = Intersection::new(s(2.0_f64.sqrt()), &w.objects[2]);

    let comps = i.prepare_computations(r);
    let color = w.shade_hit(comps, MAX_REFLECTION_DEPTH);

    assert_eq!(color, c(0.87676, 0.92434, 0.82917));
}

#[test]
fn color_at_with_mutually_reflective_surfaces() {
    let mut w = World::new();
    w.light = PointLight::new(Point::origin(), Color::white());

    let mut lower = Plane::new();
    lower.material.reflective = s(1.0);
    lower.transformation = translation(s(0.0), s(-1.0), s(0.0));
    w.objects.push(lower);

    let mut upper = Plane::new();
    upper.material.reflective = s(1.0);
    upper.transformation = translation(s(0.0), s(1.0), s(0.0));
    w.objects.push(upper);

    let r = Ray::new(Point::origin(), v(0.0, 1.0, 0.0));
    w.color_at(r, MAX_REFLECTION_DEPTH);
}

#[test]
fn reflected_color_at_max_recursive_depth() {
    let w = world_with_mirror_floor();

    let r = Ray::new(p(0.0, 0.0, -3.0), v(0.0, -(2.0_f64.sqrt() / 2.0), 2.0_f64.sqrt() / 2.0));
    let i = Intersection::new(s(2.0_f64.sqrt()), &w.objects[2]);

    let comps = i.prepare_computations(r);
    let color = w.reflected_color(comps, 0);

    assert_eq!(color, Color::black());
}

#[test]
fn shade_hit_without_mirrorings_left_is_the_surface_alone() {
    let w = world_with_mirror_floor();
    let mut matte = world_with_mirror_floor();
    matte.objects[2].material.reflective = s(0.0);
    let r = Ray::new(p(0.0, 0.0, -3.0), v(0.0, -(2.0_f64.sqrt() / 2.0), 2.0_f64.sqrt() / 2.0));

    let mirror_comps = Intersection::new(s(2.0_f64.sqrt()), &w.objects[2]).prepare_computations(r);
    let matte_comps =
        Intersection::new(s(2.0_f64.sqrt()), &matte.objects[2]).prepare_computations(r);

    let at_floor = w.shade_hit(mirror_comps, 0);
    assert_eq!(at_floor.0, matte.shade_hit(matte_comps, 0).0);
    assert_eq!(at_floor.1, matte.shade_hit(matte_comps_again(&matte, r), 0).1);
    assert_eq!(at_floor, c(0.68643, 0.68643, 0.68643));
}

fn matte_comps_again<'a>(
    matte: &'a World,
    r: Ray,
) -> raytracer::intersection::Computations<'a> {
    Intersection::new(s(2.0_f64.sqrt()), &matte.objects[2]).prepare_computations(r)
}

#[test]
fn no_shadow_when_nothing_collinear_with_point_and_light() {
    let w = World::default();

    assert_eq!(w.is_shadowed(p(0.0, 10.0, 0.0)), false);
}

#[test]
fn shadow_when_object_is_between_point_and_light() {
    let w = World::default();

    assert_eq!(w.is_shadowed(p(10.0, -10.0, 10.0)), true);
}

#[test]
fn no_shadow_when_object_behind_light() {
    let w = World::default();

    assert_eq!(w.is_shadowed(p(-20.0, 20.0, -20.0)), false);
}

#[test]
fn no_shadow_when_object_behind_point() {
    let w = World::default();

    assert_eq!(w.is_shadowed(p(-2.0, 2.0, -2.0)), false);
}

#[test]
fn shade_hit_is_given_intersection_in_shadow() {
    let mut w = World::default();
    w.light = PointLight::new(p(0.0, 0.0, -10.0), Color::white());

    let s1 = Sphere::new();
    let mut s2 = Sphere::new();
    s2.set_transformation(translation(s(0.0), s(0.0), s(10.0)));
    w.objects = vec![s1, s2.clone()];

    let r = Ray::new(p(0.0, 0.0, 5.0), v(0.0, 0.0, 1.0));
    let i = Intersection::new(s(4.0), &s2);

    let comps = i.prepare_computations(r);
    let color = w.shade_hit(comps, MAX_REFLECTION_DEPTH);

    assert_eq!(color, c(0.1, 0.1, 0.1));
}

#[test]
fn world_is_valid_when_every_shape_and_the_light_are() {
    let mut w = World::default();
    assert!(w.is_valid());
    w.light.position = Point(s(0.0), s(0.0), s(0.0), s(0.0));
    assert!(!w.is_valid());
    let mut w = World::default();
    w.objects[1].set_transformation(scaling(s(0.0), s(0.0), s(0.0)));
    assert!(!w.is_valid());
    assert!(World::new().is_valid() == false || World::new().light.position.3 == s(1.0));
}
