use vstd::prelude::*;
use crate::canvas::Canvas;
use crate::color::Color;
use crate::experiments::circle::{spec_wall_ray, wall_ray};
use crate::intersection::{hit, spec_hit};
use crate::lights::PointLight;
use crate::materials::Material;
use crate::patterns::Solid;
use crate::scalar::Scalar;
use crate::shapes::{Shape, ShapeKind, Sphere};
use crate::tuples::Point;

verus! {

/// How many pixels the picture of the lit sphere is across and down.
pub const CANVAS_PIXELS: usize = 500;

/// The light of the picture: white, at `(-10, 10, -10)`.
pub open spec fn spec_light() -> PointLight {
    PointLight::spec_new(
        Point::spec_new(
            Scalar::spec_from_int(10).neg(),
            Scalar::spec_from_int(10),
            Scalar::spec_from_int(10).neg(),
        ),
        Color::white(),
    )
}

/// The sphere of the picture: a unit sphere of color `(1, 0.2, 1)`.
pub open spec fn spec_lit_sphere(id: u128) -> Shape {
    Shape {
        material: Material {
            pattern: Solid::spec_new(
                Color(Scalar::one(), Scalar::spec_from_ratio(2, 10), Scalar::one()),
            ),
            ..Material::spec_new()
        },
        ..Shape::spec_with_id(id, ShapeKind::Sphere)
    }
}

/// The color of a pixel of the lit shape: black where the ray through the
/// pixel has no hit, else the color that the light gives the hit, seen
/// from where the ray came.
pub open spec fn spec_lit_pixel(shape: &Shape, light: &PointLight, pixels: usize, x: usize, y: usize) -> Color {
    let r = spec_wall_ray(pixels, x, y);
    match spec_hit(shape.spec_intersect(r)) {
        Some(h) => {
            let point = r.spec_position(h.t);
            h.object.material.spec_lighting(
                light,
                point,
                r.direction.neg(),
                h.object.spec_normal_at(point),
                false,
                h.object,
            )
        },
        None => Color::black(),
    }
}

/// Whether a canvas is the picture of a shape under a light.
pub open spec fn is_lit_picture(shape: &Shape, light: &PointLight, image: &Canvas) -> bool {
    &&& image.well_formed()
    &&& image.width == CANVAS_PIXELS
    &&& image.height == CANVAS_PIXELS
    &&& forall|x: int, y: int|
        0 <= x < CANVAS_PIXELS && 0 <= y < CANVAS_PIXELS ==> image.spec_pixel_at(x, y)
            == spec_lit_pixel(shape, light, CANVAS_PIXELS, x as usize, y as usize)
}

/// The picture of a shape under a light, pixel by pixel.
pub fn lit_picture(shape: &Shape, light: &PointLight) -> (image: Canvas)
    requires
        shape.valid(),
    ensures
        is_lit_picture(shape, light, &image),
{
    let mut image = Canvas::new(CANVAS_PIXELS, CANVAS_PIXELS);
    let mut y: usize = 0;
    while y < CANVAS_PIXELS
        invariant
            shape.valid(),
            y <= CANVAS_PIXELS,
            image.well_formed(),
            image.width == CANVAS_PIXELS,
            image.height == CANVAS_PIXELS,
            forall|i: int, j: int|
                0 <= i < CANVAS_PIXELS && y <= j < CANVAS_PIXELS ==> image.spec_pixel_at(i, j)
                    == Color::black(),
            forall|i: int, j: int|
                0 <= i < CANVAS_PIXELS && 0 <= j < y ==> image.spec_pixel_at(i, j)
                    == spec_lit_pixel(shape, light, CANVAS_PIXELS, i as usize, j as usize),
        decreases CANVAS_PIXELS - y,
    {
        let mut x: usize = 0;
        while x < CANVAS_PIXELS
            invariant
                shape.valid(),
                y < CANVAS_PIXELS,
                x <= CANVAS_PIXELS,
                image.well_formed(),
                image.width == CANVAS_PIXELS,
                image.height == CANVAS_PIXELS,
                forall|i: int, j: int|
                    0 <= i < CANVAS_PIXELS && y < j < CANVAS_PIXELS ==> image.spec_pixel_at(i, j)
                        == Color::black(),
                forall|i: int|
                    x <= i < CANVAS_PIXELS ==> image.spec_pixel_at(i, y as int) == Color::black(),
                forall|i: int, j: int|
                    0 <= i < CANVAS_PIXELS && 0 <= j < y ==> image.spec_pixel_at(i, j)
                        == spec_lit_pixel(shape, light, CANVAS_PIXELS, i as usize, j as usize),
                forall|i: int|
                    0 <= i < x ==> image.spec_pixel_at(i, y as int) == spec_lit_pixel(
                        shape,
                        light,
                        CANVAS_PIXELS,
                        i as usize,
                        y,
                    ),
            decreases CANVAS_PIXELS - x,
        {
            let r = wall_ray(CANVAS_PIXELS, x, y);
            let xs = shape.intersect(r);
            match hit(xs) {
                Some(h) => {
                    let point = r.position(h.t);
                    let normal = h.object.normal_at(point);
                    let eye = r.direction.neg();
                    let color = h.object.material.lighting(light, point, eye, normal, false, h.object);
                    image.write_pixel(x, y, color);
                },
                None => {},
            }
            x += 1;
        }
        y += 1;
    }
    image
}

/// The picture of a unit sphere of color `(1, 0.2, 1)` under a white light
/// from the upper left.
pub fn draw_sphere() -> (image: Canvas)
    ensures
        exists|id: u128| is_lit_picture(&spec_lit_sphere(id), &spec_light(), &image),
{
    let mut sphere = Sphere::new();
    sphere.material.pattern = Solid::new(
        Color(Scalar::one(), Scalar::from_ratio(2, 10), Scalar::one()),
    );
    let light = PointLight::new(
        Point::new(Scalar::from_int(10).neg(), Scalar::from_int(10), Scalar::from_int(10).neg()),
        Color::white(),
    );
    proof {
        crate::matrices::lemma_identity_is_transformation();
    }
    assert(sphere == spec_lit_sphere(sphere.id));
    let image = lit_picture(&sphere, &light);
    assert(is_lit_picture(&spec_lit_sphere(sphere.id), &spec_light(), &image));
    image
}

} // verus!
