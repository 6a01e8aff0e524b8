use vstd::prelude::*;
use crate::canvas::Canvas;
use crate::color::Color;
use crate::constants::MAX_REFLECTION_DEPTH;
use crate::matrices::{Matrix, Row};
use crate::rays::Ray;
use crate::scalar::Scalar;
use crate::tuples::Point;
use crate::world::World;

verus! {

/// An eye that looks at the world through a canvas one unit in front of it.
#[derive(Debug, Clone, Copy)]
pub struct Camera {
    /// How many pixels the canvas is across.
    pub hsize: usize,
    /// How many pixels the canvas is down.
    pub vsize: usize,
    /// The angle, in radians, that the eye takes in.
    pub field_of_view: Scalar,
    /// How the world lies before the eye.
    pub transform: Matrix,
    pub half_width: Scalar,
    pub half_height: Scalar,
    pub pixel_size: Scalar,
}

/// The last row of a matrix that takes points to points and vectors to
/// vectors.
pub open spec fn spec_affine_row() -> Row {
    Row(Scalar::zero(), Scalar::zero(), Scalar::zero(), Scalar::one())
}

/// Under a matrix whose last row is `(0, 0, 0, 1)` a tuple keeps its `w`
/// where that is 1.
pub proof fn lemma_affine_row_keeps_w(row: Row, x: Scalar, y: Scalar, z: Scalar)
    requires
        row == spec_affine_row(),
    ensures
        row.spec_dot(Row(x, y, z, Scalar::one())) == Scalar::one(),
{
    crate::scalar::lemma_mul_one_and_zero(x);
    crate::scalar::lemma_mul_one_and_zero(y);
    crate::scalar::lemma_mul_one_and_zero(z);
}

impl Camera {
    pub open spec fn spec_new(hsize: usize, vsize: usize, field_of_view: Scalar) -> Camera {
        let half_view = field_of_view.div(Scalar::spec_from_int(2)).tan();
        let aspect = Scalar::spec_from_usize(hsize).div(Scalar::spec_from_usize(vsize));
        let half_width = if Scalar::one().le(aspect) {
            half_view
        } else {
            half_view.mul(aspect)
        };
        let half_height = if Scalar::one().le(aspect) {
            half_view.div(aspect)
        } else {
            half_view
        };
        Camera {
            hsize,
            vsize,
            field_of_view,
            transform: Matrix::identity(),
            half_width,
            half_height,
            pixel_size: half_width.mul(Scalar::spec_from_int(2)).div(Scalar::spec_from_usize(hsize)),
        }
    }

    /// A camera at the origin that looks down the negative z axis. Half of
    /// the canvas's longer side is the tangent of half the field of view,
    /// the shorter side is in the proportion of the pixel counts, and a
    /// pixel's size is the canvas's width over the pixels across.
    pub fn new(hsize: usize, vsize: usize, field_of_view: Scalar) -> (c: Camera)
        ensures
            c == Camera::spec_new(hsize, vsize, field_of_view),
            c.valid(),
    {
        proof {
            crate::matrices::lemma_identity_is_transformation();
            crate::matrices::lemma_inverse_last_row(Matrix::identity());
        }
        let half_view = field_of_view.div(Scalar::from_int(2)).tan();
        let aspect = Scalar::from_usize(hsize).div(Scalar::from_usize(vsize));
        let half_width;
        let half_height;
        if Scalar::one().le(aspect) {
            half_width = half_view;
            half_height = half_view.div(aspect);
        } else {
            half_width = half_view.mul(aspect);
            half_height = half_view;
        }
        let pixel_size = half_width.mul(Scalar::from_int(2)).div(Scalar::from_usize(hsize));
        Camera {
            hsize,
            vsize,
            field_of_view,
            transform: Matrix::identity(),
            half_width,
            half_height,
            pixel_size,
        }
    }

    /// The transform is a 4 x 4 matrix with an inverse, and the last row of
    /// the inverse is `(0, 0, 0, 1)`.
    pub open spec fn valid(&self) -> bool {
        self.transform.spec_is_transformation() && self.transform.spec_inverse().spec_row(3)
            == spec_affine_row()
    }

    /// Whether the camera is valid.
    pub fn is_valid(&self) -> (r: bool)
        ensures
            r == self.valid(),
    {
        if !self.transform.is_transformation() {
            return false;
        }
        let last = self.transform.inverse().row(3);
        last.0 == Scalar::zero() && last.1 == Scalar::zero() && last.2 == Scalar::zero() && last.3
            == Scalar::one()
    }

    /// The point of the canvas, in the camera's own space, at the middle of
    /// the pixel at `(px, py)`: the canvas stands at `z = -1`, with x
    /// growing to the left.
    pub open spec fn spec_pixel_point(&self, px: Scalar, py: Scalar) -> Point {
        let half = Scalar::spec_from_ratio(1, 2);
        Point::spec_new(
            self.half_width.sub(px.add(half).mul(self.pixel_size)),
            self.half_height.sub(py.add(half).mul(self.pixel_size)),
            Scalar::one().neg(),
        )
    }

    /// The ray from the eye through the middle of the pixel at `(px, py)`:
    /// the eye and the pixel's point are taken into the world by the
    /// inverse of the transform, and the direction from the one to the
    /// other is brought to length 1.
    #[verifier::opaque]
    pub open spec fn spec_ray_for_pixel(&self, px: Scalar, py: Scalar) -> Ray {
        let inverse = self.transform.spec_inverse();
        let pixel = inverse.spec_mul_point(self.spec_pixel_point(px, py));
        let origin = inverse.spec_mul_point(Point::origin());
        Ray { origin, direction: pixel.sub(origin).normalize() }
    }

    /// The ray from the eye through the middle of the pixel at `(px, py)`.
    pub fn ray_for_pixel(&self, px: Scalar, py: Scalar) -> (r: Ray)
        requires
            self.valid(),
        ensures
            r == self.spec_ray_for_pixel(px, py),
            r.well_formed(),
    {
        reveal(Camera::spec_ray_for_pixel);
        let half = Scalar::from_ratio(1, 2);
        let x_offset = px.add(half).mul(self.pixel_size);
        let y_offset = py.add(half).mul(self.pixel_size);
        let world_x = self.half_width.sub(x_offset);
        let world_y = self.half_height.sub(y_offset);
        let inverse = self.transform.inverse();
        let pixel = inverse.mul_point(Point::new(world_x, world_y, Scalar::one().neg()));
        let origin = inverse.mul_point(Point::origin());
        let direction = pixel.sub(origin).normalize();
        proof {
            lemma_affine_row_keeps_w(inverse.spec_row(3), world_x, world_y, Scalar::one().neg());
            lemma_affine_row_keeps_w(
                inverse.spec_row(3),
                Scalar::zero(),
                Scalar::zero(),
                Scalar::zero(),
            );
        }
        Ray::new(origin, direction)
    }

    /// The color of the pixel at column `x` of row `y`: what is seen along
    /// the ray through it, with the full count of mirrorings.
    pub open spec fn spec_pixel_color(&self, world: &World, x: int, y: int) -> Color {
        world.spec_color_at(
            self.spec_ray_for_pixel(
                Scalar::spec_from_usize(x as usize),
                Scalar::spec_from_usize(y as usize),
            ),
            MAX_REFLECTION_DEPTH as nat,
        )
    }

    /// Whether a canvas is this camera's picture of a world: it has the
    /// camera's size, and every pixel has its color.
    pub open spec fn is_picture(&self, world: &World, image: &Canvas) -> bool {
        &&& image.well_formed()
        &&& image.width == self.hsize
        &&& image.height == self.vsize
        &&& forall|x: int, y: int|
            0 <= x < self.hsize && 0 <= y < self.vsize ==> image.spec_pixel_at(x, y)
                == self.spec_pixel_color(world, x, y)
    }

    /// Whether `r` is what an attempt to render gives: the picture where
    /// the camera and the world are both valid, and nothing where one of
    /// them is not.
    pub open spec fn is_outcome(&self, world: &World, r: &Option<Canvas>) -> bool {
        match r {
            Some(image) => self.valid() && world.valid() && self.is_picture(world, image),
            None => !(self.valid() && world.valid()),
        }
    }

    /// The picture of a world where the camera and the world are both
    /// valid, and nothing where one of them is not.
    pub fn try_render(self, world: World) -> (r: Option<Canvas>)
        ensures
            self.is_outcome(&world, &r),
    {
        if self.is_valid() && world.is_valid() {
            Some(self.render(world))
        } else {
            None
        }
    }

    /// The picture of a world: row after row from the top, each pixel the
    /// color seen along the ray through it.
    pub fn render(self, world: World) -> (image: Canvas)
        requires
            self.valid(),
            world.valid(),
        ensures
            self.is_picture(&world, &image),
    {
        let mut image = Canvas::new(self.hsize, self.vsize);
        let mut y: usize = 0;
        while y < self.vsize
            invariant
                self.valid(),
                world.valid(),
                y <= self.vsize,
                image.well_formed(),
                image.width == self.hsize,
                image.height == self.vsize,
                forall|i: int, j: int|
                    0 <= i < self.hsize && 0 <= j < y ==> image.spec_pixel_at(i, j)
                        == self.spec_pixel_color(&world, i, j),
            decreases self.vsize - y,
        {
            let mut x: usize = 0;
            while x < self.hsize
                invariant
                    self.valid(),
                    world.valid(),
                    y < self.vsize,
                    x <= self.hsize,
                    image.well_formed(),
                    image.width == self.hsize,
                    image.height == self.vsize,
                    forall|i: int, j: int|
                        0 <= i < self.hsize && 0 <= j < y ==> image.spec_pixel_at(i, j)
                            == self.spec_pixel_color(&world, i, j),
                    forall|i: int|
                        0 <= i < x ==> image.spec_pixel_at(i, y as int) == self.spec_pixel_color(
                            &world,
                            i,
                            y as int,
                        ),
                decreases self.hsize - x,
            {
                let ray = self.ray_for_pixel(Scalar::from_usize(x), Scalar::from_usize(y));
                let color = world.color_at(ray, MAX_REFLECTION_DEPTH);
                image.write_pixel(x, y, color);
                x += 1;
            }
            y += 1;
        }
        image
    }
}

} // verus!
