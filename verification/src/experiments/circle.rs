use vstd::prelude::*;
use crate::canvas::Canvas;
use crate::color::Color;
use crate::intersection::{hit, spec_hit};
use crate::rays::Ray;
use crate::scalar::Scalar;
use crate::shapes::{Shape, ShapeKind, Sphere};
use crate::tuples::Point;

verus! {

/// How many pixels the picture of the circle is across and down.
pub const CANVAS_PIXELS: usize = 100;

/// The eye of the pictures that are cast on a wall: five units before the
/// origin.
pub open spec fn spec_eye() -> Point {
    Point::spec_new(Scalar::zero(), Scalar::zero(), Scalar::spec_from_int(5).neg())
}

/// The ray from the eye to the middle of a wall that stands ten units
/// behind the origin and is seven units wide, at pixel `(x, y)` of
/// `pixels` across and down.
pub open spec fn spec_wall_ray(pixels: usize, x: usize, y: usize) -> Ray {
    let pixel_size = Scalar::spec_from_int(7).div(Scalar::spec_from_usize(pixels));
    let half = Scalar::spec_from_int(7).div(Scalar::spec_from_int(2));
    let position = Point::spec_new(
        half.neg().add(pixel_size.mul(Scalar::spec_from_usize(x))),
        half.sub(pixel_size.mul(Scalar::spec_from_usize(y))),
        Scalar::spec_from_int(10),
    );
    Ray { origin: spec_eye(), direction: position.sub(spec_eye()).normalize() }
}

pub fn wall_ray(pixels: usize, x: usize, y: usize) -> (r: Ray)
    ensures
        r == spec_wall_ray(pixels, x, y),
        r.well_formed(),
{
    let eye = Point::new(Scalar::zero(), Scalar::zero(), Scalar::from_int(5).neg());
    let pixel_size = Scalar::from_int(7).div(Scalar::from_usize(pixels));
    let half = Scalar::from_int(7).div(Scalar::from_int(2));
    let position = Point::new(
        half.neg().add(pixel_size.mul(Scalar::from_usize(x))),
        half.sub(pixel_size.mul(Scalar::from_usize(y))),
        Scalar::from_int(10),
    );
    Ray::new(eye, position.sub(eye).normalize())
}

pub open spec fn spec_red() -> Color {
    Color(Scalar::one(), Scalar::zero(), Scalar::zero())
}

/// The color of a pixel of a shape's shadow on the wall: red where the ray
/// through the pixel has a hit on the shape, else black.
pub open spec fn spec_silhouette(shape: &Shape, pixels: usize, x: usize, y: usize) -> Color {
    if spec_hit(shape.spec_intersect(spec_wall_ray(pixels, x, y))).is_some() {
        spec_red()
    } else {
        Color::black()
    }
}

/// Whether a canvas is the shadow of a shape on the wall.
pub open spec fn is_silhouette(shape: &Shape, image: &Canvas) -> bool {
    &&& image.well_formed()
    &&& image.width == CANVAS_PIXELS
    &&& image.height == CANVAS_PIXELS
    &&& forall|x: int, y: int|
        0 <= x < CANVAS_PIXELS && 0 <= y < CANVAS_PIXELS ==> image.spec_pixel_at(x, y)
            == spec_silhouette(shape, CANVAS_PIXELS, x as usize, y as usize)
}

/// The shadow of a shape on the wall, pixel by pixel.
pub fn silhouette(shape: &Shape) -> (image: Canvas)
    requires
        shape.valid(),
    ensures
        is_silhouette(shape, &image),
{
    let mut image = Canvas::new(CANVAS_PIXELS, CANVAS_PIXELS);
    let red = Color(Scalar::one(), Scalar::zero(), Scalar::zero());
    let mut y: usize = 0;
    while y < CANVAS_PIXELS
        invariant
            shape.valid(),
            red == spec_red(),
            y <= CANVAS_PIXELS,
            image.well_formed(),
            image.width == CANVAS_PIXELS,
            image.height == CANVAS_PIXELS,
            forall|i: int, j: int|
                0 <= i < CANVAS_PIXELS && y <= j < CANVAS_PIXELS ==> image.spec_pixel_at(i, j)
                    == Color::black(),
            forall|i: int, j: int|
                0 <= i < CANVAS_PIXELS && 0 <= j < y ==> image.spec_pixel_at(i, j)
                    == spec_silhouette(shape, CANVAS_PIXELS, i as usize, j as usize),
        decreases CANVAS_PIXELS - y,
    {
        let mut x: usize = 0;
        while x < CANVAS_PIXELS
            invariant
                shape.valid(),
                red == spec_red(),
                y < CANVAS_PIXELS,
                x <= CANVAS_PIXELS,
                image.well_formed(),
                image.width == CANVAS_PIXELS,
                image.height == CANVAS_PIXELS,
                forall|i: int, j: int|
                    0 <= i < CANVAS_PIXELS && y < j < CANVAS_PIXELS ==> image.spec_pixel_at(i, j)
                        == Color::black(),
                forall|i: int|
                    x <= i < CANVAS_PIXELS ==> image.spec_pixel_at(i, y as int) == Color::black(),
                forall|i: int, j: int|
                    0 <= i < CANVAS_PIXELS && 0 <= j < y ==> image.spec_pixel_at(i, j)
                        == spec_silhouette(shape, CANVAS_PIXELS, i as usize, j as usize),
                forall|i: int|
                    0 <= i < x ==> image.spec_pixel_at(i, y as int) == spec_silhouette(
                        shape,
                        CANVAS_PIXELS,
                        i as usize,
                        y,
                    ),
            decreases CANVAS_PIXELS - x,
        {
            let r = wall_ray(CANVAS_PIXELS, x, y);
            let xs = shape.intersect(r);
            if hit(xs).is_some() {
                image.write_pixel(x, y, red);
            }
            x += 1;
        }
        y += 1;
    }
    image
}

/// The picture of a unit sphere's shadow on the wall, red on black.
pub fn draw_circle() -> (image: Canvas)
    ensures
        exists|id: u128| is_silhouette(&Shape::spec_with_id(id, ShapeKind::Sphere), &image),
{
    let sphere = Sphere::new();
    let image = silhouette(&sphere);
    assert(is_silhouette(&Shape::spec_with_id(sphere.id, ShapeKind::Sphere), &image));
    image
}

} // verus!
