use vstd::prelude::*;
use crate::accuracy::{lemma_row_follows, size, COORDINATE_LIMIT, FACTOR_LIMIT};
use crate::matrices::{Matrix, Row};
use crate::scalar::Scalar;
use crate::tuples::{Point, Vector};

verus! {

/// A half line: where it starts and which way it goes.
#[derive(Debug, Clone, Copy)]
pub struct Ray {
    pub origin: Point,
    pub direction: Vector,
}

/// Whether a tuple of four scalars has no component larger than a limit.
pub open spec fn within(x: Scalar, y: Scalar, z: Scalar, w: Scalar, limit: int) -> bool {
    &&& size(x.raw as int) <= limit
    &&& size(y.raw as int) <= limit
    &&& size(z.raw as int) <= limit
    &&& size(w.raw as int) <= limit
}

/// A ray follows its matrix: the point at a distance along the transformed
/// ray is, within the tolerance, the transformed point at that distance
/// along the ray. This holds where the cells of the matrix and the
/// distance are of size 1024 at most, and the coordinates of the ray's
/// origin and direction of size 64 at most.
pub proof fn lemma_ray_follows_matrix(r: Ray, m: Matrix, t: Scalar)
    requires
        m.rows == 4,
        m.cols == 4,
        within(m.r0.0, m.r0.1, m.r0.2, m.r0.3, FACTOR_LIMIT as int),
        within(m.r1.0, m.r1.1, m.r1.2, m.r1.3, FACTOR_LIMIT as int),
        within(m.r2.0, m.r2.1, m.r2.2, m.r2.3, FACTOR_LIMIT as int),
        within(m.r3.0, m.r3.1, m.r3.2, m.r3.3, FACTOR_LIMIT as int),
        size(t.raw as int) <= FACTOR_LIMIT,
        within(r.origin.0, r.origin.1, r.origin.2, r.origin.3, COORDINATE_LIMIT as int),
        within(
            r.direction.0,
            r.direction.1,
            r.direction.2,
            r.direction.3,
            COORDINATE_LIMIT as int,
        ),
    ensures
        r.spec_transform(m).spec_position(t).spec_approx_eq(
            &m.spec_mul_point(r.spec_position(t)),
        ),
{
    let o = Row(r.origin.0, r.origin.1, r.origin.2, r.origin.3);
    let d = Row(r.direction.0, r.direction.1, r.direction.2, r.direction.3);
    lemma_row_follows(m.spec_row(0), o, d, t);
    lemma_row_follows(m.spec_row(1), o, d, t);
    lemma_row_follows(m.spec_row(2), o, d, t);
    lemma_row_follows(m.spec_row(3), o, d, t);
}

impl Ray {
    /// The origin is a point and the direction a vector: `w` is 1 for the
    /// one and 0 for the other.
    pub open spec fn well_formed(&self) -> bool {
        self.origin.3 == Scalar::one() && self.direction.3 == Scalar::zero()
    }

    pub open spec fn spec_new(origin: Point, direction: Vector) -> Ray {
        Ray { origin, direction }
    }

    /// The ray from a point along a vector: the origin's `w` must be 1 and
    /// the direction's 0.
    #[verifier::when_used_as_spec(spec_new)]
    pub fn new(origin: Point, direction: Vector) -> (r: Ray)
        requires
            origin.3 == Scalar::one(),
            direction.3 == Scalar::zero(),
        ensures
            r == Ray::spec_new(origin, direction),
    {
        Ray { origin, direction }
    }

    pub open spec fn spec_position(&self, t: Scalar) -> Point {
        self.origin.add(self.direction.mul(t))
    }

    /// The point at distance `t` along the ray: `origin + direction * t`.
    #[verifier::when_used_as_spec(spec_position)]
    pub fn position(&self, t: Scalar) -> (p: Point)
        ensures
            p == self.spec_position(t),
    {
        self.origin.add(self.direction.mul(t))
    }

    pub open spec fn spec_transform(&self, m: Matrix) -> Ray {
        Ray { origin: m.spec_mul_point(self.origin), direction: m.spec_mul_vector(self.direction) }
    }

    /// The ray with origin and direction both multiplied by `m`.
    pub fn transform(&self, m: Matrix) -> (r: Ray)
        requires
            m.rows == 4,
            m.cols == 4,
        ensures
            r == self.spec_transform(m),
    {
        Ray { origin: m.mul_point(self.origin), direction: m.mul_vector(self.direction) }
    }
}

} // verus!
