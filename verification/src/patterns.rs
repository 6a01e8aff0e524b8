use vstd::prelude::*;
use crate::color::Color;
use crate::matrices::Matrix;
use crate::scalar::Scalar;
use crate::shapes::Shape;
use crate::tuples::Point;

verus! {

/// What a pattern paints, over the point in its own space.
#[derive(Debug)]
pub enum PatternKind {
    /// One color everywhere.
    Solid(Color),
    /// The first pattern where `x` rounded down is even, else the second.
    Stripe(Box<Pattern>, Box<Pattern>),
    /// From the first color to the second along `x`, over and over.
    Gradient(Color, Color),
    /// The first pattern where the distance from the y axis rounded down is
    /// even, else the second.
    Ring(Box<Pattern>, Box<Pattern>),
    /// The first pattern where the sum of `x`, `y` and `z`, each rounded
    /// down, is even, else the second.
    Checker(Box<Pattern>, Box<Pattern>),
    /// From the first color to the second along the distance from the y
    /// axis, over and over.
    RadialGradient(Color, Color),
    /// The product of the two patterns, part by part.
    Blended(Box<Pattern>, Box<Pattern>),
}

/// A rule that gives each point a color, with a transformation of its own
/// from pattern space to the space around it.
#[derive(Debug)]
pub struct Pattern {
    pub kind: PatternKind,
    pub transformation: Matrix,
}

/// Makes a pattern of one color.
pub struct Solid;

/// Makes a pattern of stripes across `x`.
pub struct Stripe;

/// Makes a pattern that fades along `x`.
pub struct Gradient;

/// Makes a pattern of rings around the y axis.
pub struct Ring;

/// Makes a pattern of cubes that alternate in all three directions.
pub struct Checker;

/// Makes a pattern that fades outward from the y axis.
pub struct RadialGradient;

/// Makes a pattern that multiplies two others.
pub struct Blended;

/// The distance of a point from the y axis.
pub open spec fn spec_radius(p: Point) -> Scalar {
    p.0.mul(p.0).add(p.2.mul(p.2)).sqrt()
}

fn radius(p: Point) -> (r: Scalar)
    ensures
        r == spec_radius(p),
{
    p.0.mul(p.0).add(p.2.mul(p.2)).sqrt()
}

/// Whether the sum of the three coordinates, each rounded down, is even.
pub open spec fn spec_checker_is_even(p: Point) -> bool {
    (p.0.spec_floor_int() + p.1.spec_floor_int() + p.2.spec_floor_int()) % 2 == 0
}

fn checker_is_even(p: Point) -> (r: bool)
    ensures
        r == spec_checker_is_even(p),
{
    let sum: i64 = p.0.floor_int() + p.1.floor_int() + p.2.floor_int();
    if sum >= 0 {
        sum % 2 == 0
    } else {
        (-sum) % 2 == 0
    }
}

/// The color the fraction `fraction` of the way from `a` to `b`.
pub open spec fn spec_blend(a: Color, b: Color, fraction: Scalar) -> Color {
    a.add(b.sub(a).mul(fraction))
}

fn blend(a: Color, b: Color, fraction: Scalar) -> (c: Color)
    ensures
        c == spec_blend(a, b, fraction),
{
    a.add(b.sub(a).mul(fraction))
}

impl Clone for PatternKind {
    fn clone(&self) -> (r: Self)
        ensures
            r == *self,
        decreases self,
    {
        match self {
            PatternKind::Solid(c) => PatternKind::Solid(*c),
            PatternKind::Stripe(a, b) => PatternKind::Stripe(
                Box::new((&**a).clone()),
                Box::new((&**b).clone()),
            ),
            PatternKind::Gradient(a, b) => PatternKind::Gradient(*a, *b),
            PatternKind::Ring(a, b) => PatternKind::Ring(
                Box::new((&**a).clone()),
                Box::new((&**b).clone()),
            ),
            PatternKind::Checker(a, b) => PatternKind::Checker(
                Box::new((&**a).clone()),
                Box::new((&**b).clone()),
            ),
            PatternKind::RadialGradient(a, b) => PatternKind::RadialGradient(*a, *b),
            PatternKind::Blended(a, b) => PatternKind::Blended(
                Box::new((&**a).clone()),
                Box::new((&**b).clone()),
            ),
        }
    }
}

impl Clone for Pattern {
    fn clone(&self) -> (r: Self)
        ensures
            r == *self,
        decreases self,
    {
        Pattern { kind: self.kind.clone(), transformation: self.transformation }
    }
}

impl Pattern {
    /// The transformation of the pattern and of every pattern inside it is a
    /// 4 x 4 matrix with an inverse.
    pub open spec fn valid(&self) -> bool
        decreases self,
    {
        &&& self.transformation.spec_is_transformation()
        &&& match self.kind {
            PatternKind::Stripe(a, b) => a.valid() && b.valid(),
            PatternKind::Ring(a, b) => a.valid() && b.valid(),
            PatternKind::Checker(a, b) => a.valid() && b.valid(),
            PatternKind::Blended(a, b) => a.valid() && b.valid(),
            _ => true,
        }
    }

    /// Whether the pattern is valid.
    pub fn is_valid(&self) -> (r: bool)
        ensures
            r == self.valid(),
        decreases self,
    {
        self.transformation.is_transformation() && match &self.kind {
            PatternKind::Stripe(a, b) => a.is_valid() && b.is_valid(),
            PatternKind::Ring(a, b) => a.is_valid() && b.is_valid(),
            PatternKind::Checker(a, b) => a.is_valid() && b.is_valid(),
            PatternKind::Blended(a, b) => a.is_valid() && b.is_valid(),
            _ => true,
        }
    }

    /// The color at a point of the pattern's own space. A pattern inside
    /// this one is asked at the same point taken through the inverse of its
    /// own transformation.
    pub open spec fn spec_at(&self, point: Point) -> Color
        decreases self, 0int,
    {
        match self.kind {
            PatternKind::Solid(c) => c,
            PatternKind::Stripe(a, b) => if point.0.floor_is_even() {
                a.spec_at_outer(point)
            } else {
                b.spec_at_outer(point)
            },
            PatternKind::Gradient(a, b) => spec_blend(a, b, point.0.sub(point.0.floor())),
            PatternKind::Ring(a, b) => if spec_radius(point).floor_is_even() {
                a.spec_at_outer(point)
            } else {
                b.spec_at_outer(point)
            },
            PatternKind::Checker(a, b) => if spec_checker_is_even(point) {
                a.spec_at_outer(point)
            } else {
                b.spec_at_outer(point)
            },
            PatternKind::RadialGradient(a, b) => spec_blend(
                a,
                b,
                spec_radius(point).sub(spec_radius(point).floor()),
            ),
            PatternKind::Blended(a, b) => a.spec_at_outer(point).hadamard(b.spec_at_outer(point)),
        }
    }

    /// The color at a point of the space around the pattern: the point is
    /// taken through the inverse of the pattern's transformation.
    pub open spec fn spec_at_outer(&self, point: Point) -> Color
        decreases self, 1int,
    {
        self.spec_at(self.transformation.spec_inverse().spec_mul_point(point))
    }

    /// The color at a point of the pattern's own space.
    pub fn at(&self, point: Point) -> (c: Color)
        requires
            self.valid(),
        ensures
            c == self.spec_at(point),
        decreases self, 0int,
    {
        match &self.kind {
            PatternKind::Solid(c) => *c,
            PatternKind::Stripe(a, b) => if point.0.floor_is_even() {
                a.at_outer(point)
            } else {
                b.at_outer(point)
            },
            PatternKind::Gradient(a, b) => blend(*a, *b, point.0.sub(point.0.floor())),
            PatternKind::Ring(a, b) => if radius(point).floor_is_even() {
                a.at_outer(point)
            } else {
                b.at_outer(point)
            },
            PatternKind::Checker(a, b) => if checker_is_even(point) {
                a.at_outer(point)
            } else {
                b.at_outer(point)
            },
            PatternKind::RadialGradient(a, b) => {
                let distance = radius(point);
                blend(*a, *b, distance.sub(distance.floor()))
            },
            PatternKind::Blended(a, b) => a.at_outer(point).hadamard(b.at_outer(point)),
        }
    }

    /// The color at a point of the space around the pattern.
    pub fn at_outer(&self, point: Point) -> (c: Color)
        requires
            self.valid(),
        ensures
            c == self.spec_at_outer(point),
        decreases self, 1int,
    {
        self.at(self.transformation.inverse().mul_point(point))
    }

    /// The color of the pattern on a shape at a point of the world: the
    /// point is taken through the inverse of the shape's transformation,
    /// then through the inverse of the pattern's.
    pub open spec fn spec_at_object(&self, object: &Shape, world_point: Point) -> Color {
        self.spec_at_outer(object.transformation.spec_inverse().spec_mul_point(world_point))
    }

    /// The color of the pattern on a shape at a point of the world.
    pub fn at_object(&self, object: &Shape, world_point: Point) -> (c: Color)
        requires
            self.valid(),
            object.transformation.spec_is_transformation(),
        ensures
            c == self.spec_at_object(object, world_point),
            c == self.spec_at(
                self.transformation.spec_inverse().spec_mul_point(
                    object.transformation.spec_inverse().spec_mul_point(world_point),
                ),
            ),
    {
        let object_point = object.transformation.inverse().mul_point(world_point);
        self.at_outer(object_point)
    }

    pub fn transformation(&self) -> (m: Matrix)
        ensures
            m == self.transformation,
    {
        self.transformation
    }

    pub fn set_transformation(&mut self, m: Matrix)
        ensures
            final(self).transformation == m,
            final(self).kind == old(self).kind,
    {
        self.transformation = m;
    }

    /// Whether two patterns are of the same kind, with colors and
    /// transformations within the tolerance of each other, and the same
    /// holds of the patterns inside them.
    pub open spec fn spec_equals(&self, other: &Pattern) -> bool
        decreases self,
    {
        &&& self.transformation.spec_approx_eq(&other.transformation)
        &&& match (self.kind, other.kind) {
            (PatternKind::Solid(c), PatternKind::Solid(d)) => c.spec_approx_eq(&d),
            (PatternKind::Stripe(a, b), PatternKind::Stripe(c, d)) => a.spec_equals(&*c)
                && b.spec_equals(&*d),
            (PatternKind::Gradient(a, b), PatternKind::Gradient(c, d)) => a.spec_approx_eq(&c)
                && b.spec_approx_eq(&d),
            (PatternKind::Ring(a, b), PatternKind::Ring(c, d)) => a.spec_equals(&*c)
                && b.spec_equals(&*d),
            (PatternKind::Checker(a, b), PatternKind::Checker(c, d)) => a.spec_equals(&*c)
                && b.spec_equals(&*d),
            (
                PatternKind::RadialGradient(a, b),
                PatternKind::RadialGradient(c, d),
            ) => a.spec_approx_eq(&c) && b.spec_approx_eq(&d),
            (PatternKind::Blended(a, b), PatternKind::Blended(c, d)) => a.spec_equals(&*c)
                && b.spec_equals(&*d),
            _ => false,
        }
    }

    pub fn equals(&self, other: &Pattern) -> (r: bool)
        ensures
            r == self.spec_equals(other),
        decreases self,
    {
        self.transformation == other.transformation && match (&self.kind, &other.kind) {
            (PatternKind::Solid(c), PatternKind::Solid(d)) => *c == *d,
            (PatternKind::Stripe(a, b), PatternKind::Stripe(c, d)) => a.equals(c) && b.equals(d),
            (PatternKind::Gradient(a, b), PatternKind::Gradient(c, d)) => *a == *c && *b == *d,
            (PatternKind::Ring(a, b), PatternKind::Ring(c, d)) => a.equals(c) && b.equals(d),
            (PatternKind::Checker(a, b), PatternKind::Checker(c, d)) => a.equals(c) && b.equals(d),
            (PatternKind::RadialGradient(a, b), PatternKind::RadialGradient(c, d)) => *a == *c
                && *b == *d,
            (PatternKind::Blended(a, b), PatternKind::Blended(c, d)) => a.equals(c) && b.equals(d),
            _ => false,
        }
    }
}

/// The color of a pattern on a shape depends on the shape only by its
/// transformation: on two shapes with the same transformation, whatever
/// else they are, the pattern has the same color at every point of the
/// world, the color of the pattern's own space at the point taken through
/// the inverse of the shape's transformation and then of the pattern's.
pub proof fn lemma_at_object_by_transformation(
    pattern: &Pattern,
    first: &Shape,
    second: &Shape,
    world_point: Point,
)
    requires
        first.transformation == second.transformation,
    ensures
        pattern.spec_at_object(first, world_point) == pattern.spec_at_object(second, world_point),
        pattern.spec_at_object(first, world_point) == pattern.spec_at(
            pattern.transformation.spec_inverse().spec_mul_point(
                first.transformation.spec_inverse().spec_mul_point(world_point),
            ),
        ),
{
}

impl Solid {
    pub open spec fn spec_new(color: Color) -> Pattern {
        Pattern { kind: PatternKind::Solid(color), transformation: Matrix::identity() }
    }

    /// The pattern of one color, with the identity as its transformation.
    pub fn new(color: Color) -> (p: Pattern)
        ensures
            p == Solid::spec_new(color),
    {
        Pattern { kind: PatternKind::Solid(color), transformation: Matrix::identity() }
    }
}

impl Stripe {
    pub open spec fn spec_new(a: Box<Pattern>, b: Box<Pattern>) -> Pattern {
        Pattern { kind: PatternKind::Stripe(a, b), transformation: Matrix::identity() }
    }

    /// The stripes of two patterns, with the identity as transformation.
    pub fn new(a: Box<Pattern>, b: Box<Pattern>) -> (p: Pattern)
        ensures
            p == Stripe::spec_new(a, b),
    {
        Pattern { kind: PatternKind::Stripe(a, b), transformation: Matrix::identity() }
    }
}

impl Gradient {
    pub open spec fn spec_new(color_a: Color, color_b: Color) -> Pattern {
        Pattern { kind: PatternKind::Gradient(color_a, color_b), transformation: Matrix::identity() }
    }

    /// The gradient between two colors, with the identity as transformation.
    pub fn new(color_a: Color, color_b: Color) -> (p: Pattern)
        ensures
            p == Gradient::spec_new(color_a, color_b),
    {
        Pattern { kind: PatternKind::Gradient(color_a, color_b), transformation: Matrix::identity() }
    }
}

impl Ring {
    pub open spec fn spec_new(a: Box<Pattern>, b: Box<Pattern>) -> Pattern {
        Pattern { kind: PatternKind::Ring(a, b), transformation: Matrix::identity() }
    }

    /// The rings of two patterns, with the identity as transformation.
    pub fn new(a: Box<Pattern>, b: Box<Pattern>) -> (p: Pattern)
        ensures
            p == Ring::spec_new(a, b),
    {
        Pattern { kind: PatternKind::Ring(a, b), transformation: Matrix::identity() }
    }
}

impl Checker {
    pub open spec fn spec_new(a: Box<Pattern>, b: Box<Pattern>) -> Pattern {
        Pattern { kind: PatternKind::Checker(a, b), transformation: Matrix::identity() }
    }

    /// The checks of two patterns, with the identity as transformation.
    pub fn new(a: Box<Pattern>, b: Box<Pattern>) -> (p: Pattern)
        ensures
            p == Checker::spec_new(a, b),
    {
        Pattern { kind: PatternKind::Checker(a, b), transformation: Matrix::identity() }
    }
}

impl RadialGradient {
    pub open spec fn spec_new(color_a: Color, color_b: Color) -> Pattern {
        Pattern {
            kind: PatternKind::RadialGradient(color_a, color_b),
            transformation: Matrix::identity(),
        }
    }

    /// The radial gradient between two colors, with the identity as
    /// transformation.
    pub fn new(color_a: Color, color_b: Color) -> (p: Pattern)
        ensures
            p == RadialGradient::spec_new(color_a, color_b),
    {
        Pattern {
            kind: PatternKind::RadialGradient(color_a, color_b),
            transformation: Matrix::identity(),
        }
    }
}

impl Blended {
    pub open spec fn spec_new(a: Box<Pattern>, b: Box<Pattern>) -> Pattern {
        Pattern { kind: PatternKind::Blended(a, b), transformation: Matrix::identity() }
    }

    /// The blend of two patterns, with the identity as transformation.
    pub fn new(a: Box<Pattern>, b: Box<Pattern>) -> (p: Pattern)
        ensures
            p == Blended::spec_new(a, b),
    {
        Pattern { kind: PatternKind::Blended(a, b), transformation: Matrix::identity() }
    }
}

} // verus!
