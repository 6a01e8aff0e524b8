use vstd::prelude::*;
use crate::canvas::Canvas;
use crate::color::Color;
use crate::scalar::Scalar;
use crate::tuples::{Point, Tuple};

verus! {

/// How many pixels the clock face is across and down.
pub const FULL_LENGTH: usize = 100;

/// The point of twelve o'clock: 37.5 units from the middle along z.
pub open spec fn spec_twelve() -> Point {
    Point::spec_new(Scalar::zero(), Scalar::zero(), Scalar::spec_from_ratio(75, 2))
}

/// The point of hour `i`: twelve o'clock turned around the y axis by `i`
/// twelfths of a full turn.
pub open spec fn spec_hour_point(i: int) -> Point {
    if i == 0 {
        spec_twelve()
    } else {
        spec_twelve().spec_rotate_y(
            Scalar::spec_from_int(i as i64).mul(Scalar::pi().div(Scalar::spec_from_int(6))),
        )
    }
}

fn hour_point(i: usize) -> (p: Point)
    requires
        i < 12,
    ensures
        p == spec_hour_point(i as int),
{
    let twelve = Point::new(Scalar::zero(), Scalar::zero(), Scalar::from_ratio(75, 2));
    if i == 0 {
        twelve
    } else {
        twelve.rotate_y(Scalar::from_int(i as i64).mul(Scalar::pi().div(Scalar::from_int(6))))
    }
}

/// The column and the row of the pixel under a point: 50 plus `z` and 50
/// minus `x`, each cut to a whole number.
pub open spec fn spec_pixel_of(p: Point) -> (usize, usize) {
    (
        Scalar::spec_from_int(50).add(p.2).spec_to_index(),
        Scalar::spec_from_int(50).sub(p.0).spec_to_index(),
    )
}

/// Whether one of the first `n` hours falls on the pixel at column `x` of
/// row `y`.
pub open spec fn spec_marked(x: int, y: int, n: int) -> bool
    decreases n,
{
    if n <= 0 {
        false
    } else {
        spec_marked(x, y, n - 1) || spec_pixel_of(spec_hour_point(n - 1)) == (
            x as usize,
            y as usize,
        )
    }
}

/// Whether a canvas is the clock face with the first `n` hours: white
/// where an hour falls, black elsewhere.
pub open spec fn is_clock_face(image: &Canvas, n: int) -> bool {
    &&& image.well_formed()
    &&& image.width == FULL_LENGTH
    &&& image.height == FULL_LENGTH
    &&& forall|x: int, y: int|
        0 <= x < FULL_LENGTH && 0 <= y < FULL_LENGTH ==> image.spec_pixel_at(x, y) == (if spec_marked(
            x,
            y,
            n,
        ) {
            Color::white()
        } else {
            Color::black()
        })
}

/// Sets the pixel under a point to white, where it lies on the canvas.
fn draw_point(canvas: &mut Canvas, point: &Point)
    requires
        old(canvas).well_formed(),
    ensures
        final(canvas).well_formed(),
        final(canvas).width == old(canvas).width,
        final(canvas).height == old(canvas).height,
        forall|x: int, y: int|
            0 <= x < old(canvas).width && 0 <= y < old(canvas).height ==> final(canvas).spec_pixel_at(
                x,
                y,
            ) == (if spec_pixel_of(*point) == (x as usize, y as usize) {
                Color::white()
            } else {
                old(canvas).spec_pixel_at(x, y)
            }),
{
    let column: usize = Scalar::from_int(50).add(point.2).to_index();
    let row: usize = Scalar::from_int(50).sub(point.0).to_index();
    if column < canvas.width && row < canvas.height {
        canvas.write_pixel(column, row, Color::white());
    }
}

/// The clock face, 100 by 100: a white pixel for each of the twelve hours,
/// on black.
pub fn draw_clock() -> (image: Canvas)
    ensures
        is_clock_face(&image, 12),
{
    let mut canvas = Canvas::new(FULL_LENGTH, FULL_LENGTH);
    let mut i: usize = 0;
    while i < 12
        invariant
            i <= 12,
            is_clock_face(&canvas, i as int),
        decreases 12 - i,
    {
        let p = hour_point(i);
        draw_point(&mut canvas, &p);
        i += 1;
    }
    canvas
}

} // verus!
