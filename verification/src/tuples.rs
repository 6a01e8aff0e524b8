use vstd::prelude::*;
use vstd::std_specs::cmp::PartialEqSpecImpl;
use crate::scalar::Scalar;
use crate::transformation::{rotation_x, rotation_y, rotation_z, scaling, shearing, translation};

verus! {

/// The named transformations, applied to a tuple.
pub trait Tuple: Sized {
    spec fn spec_translate(self, x: Scalar, y: Scalar, z: Scalar) -> Self;

    spec fn spec_scale(self, x: Scalar, y: Scalar, z: Scalar) -> Self;

    spec fn spec_rotate_x(self, r: Scalar) -> Self;

    spec fn spec_rotate_y(self, r: Scalar) -> Self;

    spec fn spec_rotate_z(self, r: Scalar) -> Self;

    spec fn spec_shear(
        self,
        x_y: Scalar,
        x_z: Scalar,
        y_x: Scalar,
        y_z: Scalar,
        z_x: Scalar,
        z_y: Scalar,
    ) -> Self;

    fn translate(self, x: Scalar, y: Scalar, z: Scalar) -> (r: Self)
        ensures
            r == self.spec_translate(x, y, z),
    ;

    fn scale(self, x: Scalar, y: Scalar, z: Scalar) -> (r: Self)
        ensures
            r == self.spec_scale(x, y, z),
    ;

    fn rotate_x(self, r: Scalar) -> (out: Self)
        ensures
            out == self.spec_rotate_x(r),
    ;

    fn rotate_y(self, r: Scalar) -> (out: Self)
        ensures
            out == self.spec_rotate_y(r),
    ;

    fn rotate_z(self, r: Scalar) -> (out: Self)
        ensures
            out == self.spec_rotate_z(r),
    ;

    fn shear(
        self,
        x_y: Scalar,
        x_z: Scalar,
        y_x: Scalar,
        y_z: Scalar,
        z_x: Scalar,
        z_y: Scalar,
    ) -> (r: Self)
        ensures
            r == self.spec_shear(x_y, x_z, y_x, y_z, z_x, z_y),
    ;
}

/// A direction: a tuple `(x, y, z, w)` whose `w` is 0 when it is made by
/// `new`.
#[derive(Debug, Clone, Copy)]
pub struct Vector(pub Scalar, pub Scalar, pub Scalar, pub Scalar);

/// A position: a tuple `(x, y, z, w)` whose `w` is 1 when it is made by
/// `new`.
#[derive(Debug, Clone, Copy)]
pub struct Point(pub Scalar, pub Scalar, pub Scalar, pub Scalar);

impl Vector {
    pub open spec fn spec_new(x: Scalar, y: Scalar, z: Scalar) -> Vector {
        Vector(x, y, z, Scalar::zero())
    }

    #[verifier::when_used_as_spec(spec_new)]
    pub fn new(x: Scalar, y: Scalar, z: Scalar) -> (r: Vector)
        ensures
            r == Vector::spec_new(x, y, z),
            r.3 == Scalar::zero(),
    {
        Vector(x, y, z, Scalar::zero())
    }

    /// The vector of four components in order.
    pub fn from_vec(vec: Vec<Scalar>) -> (r: Vector)
        requires
            vec.len() == 4,
        ensures
            r == Vector(vec[0], vec[1], vec[2], vec[3]),
    {
        Vector(vec[0], vec[1], vec[2], vec[3])
    }

    /// The sum of the squares of the four components.
    pub open spec fn spec_norm_squared(&self) -> Scalar {
        self.0.mul(self.0).add(self.1.mul(self.1)).add(self.2.mul(self.2)).add(
            self.3.mul(self.3),
        )
    }

    pub open spec fn spec_magnitude(&self) -> Scalar {
        self.spec_norm_squared().sqrt()
    }

    /// The length: the square root of the sum of the squares.
    #[verifier::when_used_as_spec(spec_magnitude)]
    pub fn magnitude(&self) -> (r: Scalar)
        ensures
            r == self.spec_magnitude(),
    {
        self.0.mul(self.0).add(self.1.mul(self.1)).add(self.2.mul(self.2)).add(
            self.3.mul(self.3),
        ).sqrt()
    }

    pub open spec fn spec_normalize(self) -> Vector {
        self.spec_div(self.spec_magnitude())
    }

    /// The vector divided by its length.
    #[verifier::when_used_as_spec(spec_normalize)]
    pub fn normalize(self) -> (r: Vector)
        ensures
            r == self.spec_normalize(),
    {
        let mag = self.magnitude();
        self.div(mag)
    }

    pub open spec fn spec_dot(&self, other: &Vector) -> Scalar {
        self.0.mul(other.0).add(self.1.mul(other.1)).add(self.2.mul(other.2)).add(
            self.3.mul(other.3),
        )
    }

    /// The dot product over all four components.
    #[verifier::when_used_as_spec(spec_dot)]
    pub fn dot(&self, other: &Vector) -> (r: Scalar)
        ensures
            r == self.spec_dot(other),
    {
        self.0.mul(other.0).add(self.1.mul(other.1)).add(self.2.mul(other.2)).add(
            self.3.mul(other.3),
        )
    }

    pub open spec fn spec_cross(&self, other: &Vector) -> Vector {
        Vector::spec_new(
            self.1.mul(other.2).sub(self.2.mul(other.1)),
            self.2.mul(other.0).sub(self.0.mul(other.2)),
            self.0.mul(other.1).sub(self.1.mul(other.0)),
        )
    }

    /// The cross product of the first three components, as a vector.
    #[verifier::when_used_as_spec(spec_cross)]
    pub fn cross(&self, other: &Vector) -> (r: Vector)
        ensures
            r == self.spec_cross(other),
            r.3 == Scalar::zero(),
    {
        Vector::new(
            self.1.mul(other.2).sub(self.2.mul(other.1)),
            self.2.mul(other.0).sub(self.0.mul(other.2)),
            self.0.mul(other.1).sub(self.1.mul(other.0)),
        )
    }

    pub open spec fn spec_reflect(self, normal: Vector) -> Vector {
        self.spec_sub(
            normal.spec_mul(Scalar::spec_from_int(2)).spec_mul(self.spec_dot(&normal)),
        )
    }

    /// The vector mirrored at the surface whose normal is given:
    /// `self - normal * 2 * (self . normal)`.
    #[verifier::when_used_as_spec(spec_reflect)]
    pub fn reflect(self, normal: Vector) -> (r: Vector)
        ensures
            r == self.spec_reflect(normal),
    {
        self.sub(normal.mul(Scalar::from_int(2)).mul(self.dot(&normal)))
    }

    pub open spec fn spec_add(self, other: Vector) -> Vector {
        Vector(
            self.0.add(other.0),
            self.1.add(other.1),
            self.2.add(other.2),
            self.3.add(other.3),
        )
    }

    #[verifier::when_used_as_spec(spec_add)]
    pub fn add(self, other: Vector) -> (r: Vector)
        ensures
            r == self.spec_add(other),
    {
        Vector(
            self.0.add(other.0),
            self.1.add(other.1),
            self.2.add(other.2),
            self.3.add(other.3),
        )
    }

    pub open spec fn spec_add_point(self, other: Point) -> Point {
        Point(
            self.0.add(other.0),
            self.1.add(other.1),
            self.2.add(other.2),
            self.3.add(other.3),
        )
    }

    /// The point that lies this vector away from `other`.
    #[verifier::when_used_as_spec(spec_add_point)]
    pub fn add_point(self, other: Point) -> (r: Point)
        ensures
            r == self.spec_add_point(other),
    {
        Point(
            self.0.add(other.0),
            self.1.add(other.1),
            self.2.add(other.2),
            self.3.add(other.3),
        )
    }

    pub open spec fn spec_sub(self, other: Vector) -> Vector {
        Vector(
            self.0.sub(other.0),
            self.1.sub(other.1),
            self.2.sub(other.2),
            self.3.sub(other.3),
        )
    }

    #[verifier::when_used_as_spec(spec_sub)]
    pub fn sub(self, other: Vector) -> (r: Vector)
        ensures
            r == self.spec_sub(other),
    {
        Vector(
            self.0.sub(other.0),
            self.1.sub(other.1),
            self.2.sub(other.2),
            self.3.sub(other.3),
        )
    }

    pub open spec fn spec_neg(self) -> Vector {
        Vector(self.0.neg(), self.1.neg(), self.2.neg(), self.3.neg())
    }

    #[verifier::when_used_as_spec(spec_neg)]
    pub fn neg(self) -> (r: Vector)
        ensures
            r == self.spec_neg(),
    {
        Vector(self.0.neg(), self.1.neg(), self.2.neg(), self.3.neg())
    }

    pub open spec fn spec_mul(self, scalar: Scalar) -> Vector {
        Vector(self.0.mul(scalar), self.1.mul(scalar), self.2.mul(scalar), self.3.mul(scalar))
    }

    #[verifier::when_used_as_spec(spec_mul)]
    pub fn mul(self, scalar: Scalar) -> (r: Vector)
        ensures
            r == self.spec_mul(scalar),
    {
        Vector(self.0.mul(scalar), self.1.mul(scalar), self.2.mul(scalar), self.3.mul(scalar))
    }

    pub open spec fn spec_div(self, scalar: Scalar) -> Vector {
        Vector(self.0.div(scalar), self.1.div(scalar), self.2.div(scalar), self.3.div(scalar))
    }

    #[verifier::when_used_as_spec(spec_div)]
    pub fn div(self, scalar: Scalar) -> (r: Vector)
        ensures
            r == self.spec_div(scalar),
    {
        Vector(self.0.div(scalar), self.1.div(scalar), self.2.div(scalar), self.3.div(scalar))
    }

    /// Whether each component is within the tolerance of the other's.
    pub open spec fn spec_approx_eq(&self, other: &Vector) -> bool {
        self.0.approx_eq(other.0) && self.1.approx_eq(other.1) && self.2.approx_eq(other.2)
            && self.3.approx_eq(other.3)
    }
}

/// Arithmetic keeps points and vectors apart. The difference of two points
/// is a vector; a point moved by a vector is a point; the sum and the
/// difference of two vectors, and a vector negated or scaled, are vectors.
pub proof fn lemma_kinds_are_kept(p: Point, q: Point, u: Vector, v: Vector, k: Scalar)
    requires
        p.3 == Scalar::one(),
        q.3 == Scalar::one(),
        u.3 == Scalar::zero(),
        v.3 == Scalar::zero(),
    ensures
        p.sub(q).3 == Scalar::zero(),
        p.add(u).3 == Scalar::one(),
        p.sub_vector(u).3 == Scalar::one(),
        u.add_point(p).3 == Scalar::one(),
        u.add(v).3 == Scalar::zero(),
        u.sub(v).3 == Scalar::zero(),
        u.neg().3 == Scalar::zero(),
        u.mul(k).3 == Scalar::zero(),
        u.div(k).3 == Scalar::zero(),
        u.spec_cross(&v).3 == Scalar::zero(),
        u.reflect(v).3 == Scalar::zero(),
{
    assert(Scalar::zero().mul(k) == Scalar::zero());
    assert(Scalar::zero().mul(Scalar::spec_from_int(2)) == Scalar::zero());
    assert(Scalar::zero().mul(u.spec_dot(&v)) == Scalar::zero());
}

impl PartialEq for Vector {
    fn eq(&self, other: &Self) -> (r: bool) {
        self.0.approx_eq(other.0) && self.1.approx_eq(other.1) && self.2.approx_eq(other.2)
            && self.3.approx_eq(other.3)
    }
}

impl PartialEqSpecImpl for Vector {
    open spec fn obeys_eq_spec() -> bool {
        true
    }

    open spec fn eq_spec(&self, other: &Self) -> bool {
        self.spec_approx_eq(other)
    }
}

impl Tuple for Vector {
    open spec fn spec_translate(self, x: Scalar, y: Scalar, z: Scalar) -> Self {
        translation(x, y, z).spec_mul_vector(self)
    }

    open spec fn spec_scale(self, x: Scalar, y: Scalar, z: Scalar) -> Self {
        scaling(x, y, z).spec_mul_vector(self)
    }

    open spec fn spec_rotate_x(self, r: Scalar) -> Self {
        rotation_x(r).spec_mul_vector(self)
    }

    open spec fn spec_rotate_y(self, r: Scalar) -> Self {
        rotation_y(r).spec_mul_vector(self)
    }

    open spec fn spec_rotate_z(self, r: Scalar) -> Self {
        rotation_z(r).spec_mul_vector(self)
    }

    open spec fn spec_shear(
        self,
        x_y: Scalar,
        x_z: Scalar,
        y_x: Scalar,
        y_z: Scalar,
        z_x: Scalar,
        z_y: Scalar,
    ) -> Self {
        shearing(x_y, x_z, y_x, y_z, z_x, z_y).spec_mul_vector(self)
    }

    fn translate(self, x: Scalar, y: Scalar, z: Scalar) -> (r: Self) {
        translation(x, y, z).mul_vector(self)
    }

    fn scale(self, x: Scalar, y: Scalar, z: Scalar) -> (r: Self) {
        scaling(x, y, z).mul_vector(self)
    }

    fn rotate_x(self, r: Scalar) -> (out: Self) {
        rotation_x(r).mul_vector(self)
    }

    fn rotate_y(self, r: Scalar) -> (out: Self) {
        rotation_y(r).mul_vector(self)
    }

    fn rotate_z(self, r: Scalar) -> (out: Self) {
        rotation_z(r).mul_vector(self)
    }

    fn shear(
        self,
        x_y: Scalar,
        x_z: Scalar,
        y_x: Scalar,
        y_z: Scalar,
        z_x: Scalar,
        z_y: Scalar,
    ) -> (r: Self) {
        shearing(x_y, x_z, y_x, y_z, z_x, z_y).mul_vector(self)
    }
}

impl Point {
    pub open spec fn spec_new(x: Scalar, y: Scalar, z: Scalar) -> Point {
        Point(x, y, z, Scalar::one())
    }

    #[verifier::when_used_as_spec(spec_new)]
    pub fn new(x: Scalar, y: Scalar, z: Scalar) -> (r: Point)
        ensures
            r == Point::spec_new(x, y, z),
            r.3 == Scalar::one(),
    {
        Point(x, y, z, Scalar::one())
    }

    pub open spec fn spec_origin() -> Point {
        Point(Scalar::zero(), Scalar::zero(), Scalar::zero(), Scalar::one())
    }

    #[verifier::when_used_as_spec(spec_origin)]
    pub fn origin() -> (r: Point)
        ensures
            r == Point::spec_origin(),
    {
        Point::new(Scalar::zero(), Scalar::zero(), Scalar::zero())
    }

    /// The point of four components in order.
    pub fn from_vec(vec: Vec<Scalar>) -> (r: Point)
        requires
            vec.len() == 4,
        ensures
            r == Point(vec[0], vec[1], vec[2], vec[3]),
    {
        Point(vec[0], vec[1], vec[2], vec[3])
    }

    pub open spec fn spec_add(self, other: Vector) -> Point {
        Point(
            self.0.add(other.0),
            self.1.add(other.1),
            self.2.add(other.2),
            self.3.add(other.3),
        )
    }

    /// The point that lies `other` away from this one.
    #[verifier::when_used_as_spec(spec_add)]
    pub fn add(self, other: Vector) -> (r: Point)
        ensures
            r == self.spec_add(other),
    {
        Point(
            self.0.add(other.0),
            self.1.add(other.1),
            self.2.add(other.2),
            self.3.add(other.3),
        )
    }

    pub open spec fn spec_sub(self, other: Point) -> Vector {
        Vector(
            self.0.sub(other.0),
            self.1.sub(other.1),
            self.2.sub(other.2),
            self.3.sub(other.3),
        )
    }

    /// The vector that leads from `other` to this point.
    #[verifier::when_used_as_spec(spec_sub)]
    pub fn sub(self, other: Point) -> (r: Vector)
        ensures
            r == self.spec_sub(other),
    {
        Vector(
            self.0.sub(other.0),
            self.1.sub(other.1),
            self.2.sub(other.2),
            self.3.sub(other.3),
        )
    }

    pub open spec fn spec_sub_vector(self, other: Vector) -> Point {
        Point(
            self.0.sub(other.0),
            self.1.sub(other.1),
            self.2.sub(other.2),
            self.3.sub(other.3),
        )
    }

    /// The point that lies `other` back from this one.
    #[verifier::when_used_as_spec(spec_sub_vector)]
    pub fn sub_vector(self, other: Vector) -> (r: Point)
        ensures
            r == self.spec_sub_vector(other),
    {
        Point(
            self.0.sub(other.0),
            self.1.sub(other.1),
            self.2.sub(other.2),
            self.3.sub(other.3),
        )
    }

    pub open spec fn spec_neg(self) -> Point {
        Point(self.0.neg(), self.1.neg(), self.2.neg(), self.3.neg())
    }

    #[verifier::when_used_as_spec(spec_neg)]
    pub fn neg(self) -> (r: Point)
        ensures
            r == self.spec_neg(),
    {
        Point(self.0.neg(), self.1.neg(), self.2.neg(), self.3.neg())
    }

    /// Whether each component is within the tolerance of the other's.
    pub open spec fn spec_approx_eq(&self, other: &Point) -> bool {
        self.0.approx_eq(other.0) && self.1.approx_eq(other.1) && self.2.approx_eq(other.2)
            && self.3.approx_eq(other.3)
    }
}

impl PartialEq for Point {
    fn eq(&self, other: &Self) -> (r: bool) {
        self.0.approx_eq(other.0) && self.1.approx_eq(other.1) && self.2.approx_eq(other.2)
            && self.3.approx_eq(other.3)
    }
}

impl PartialEqSpecImpl for Point {
    open spec fn obeys_eq_spec() -> bool {
        true
    }

    open spec fn eq_spec(&self, other: &Self) -> bool {
        self.spec_approx_eq(other)
    }
}

impl Tuple for Point {
    open spec fn spec_translate(self, x: Scalar, y: Scalar, z: Scalar) -> Self {
        translation(x, y, z).spec_mul_point(self)
    }

    open spec fn spec_scale(self, x: Scalar, y: Scalar, z: Scalar) -> Self {
        scaling(x, y, z).spec_mul_point(self)
    }

    open spec fn spec_rotate_x(self, r: Scalar) -> Self {
        rotation_x(r).spec_mul_point(self)
    }

    open spec fn spec_rotate_y(self, r: Scalar) -> Self {
        rotation_y(r).spec_mul_point(self)
    }

    open spec fn spec_rotate_z(self, r: Scalar) -> Self {
        rotation_z(r).spec_mul_point(self)
    }

    open spec fn spec_shear(
        self,
        x_y: Scalar,
        x_z: Scalar,
        y_x: Scalar,
        y_z: Scalar,
        z_x: Scalar,
        z_y: Scalar,
    ) -> Self {
        shearing(x_y, x_z, y_x, y_z, z_x, z_y).spec_mul_point(self)
    }

    fn translate(self, x: Scalar, y: Scalar, z: Scalar) -> (r: Self) {
        translation(x, y, z).mul_point(self)
    }

    fn scale(self, x: Scalar, y: Scalar, z: Scalar) -> (r: Self) {
        scaling(x, y, z).mul_point(self)
    }

    fn rotate_x(self, r: Scalar) -> (out: Self) {
        rotation_x(r).mul_point(self)
    }

    fn rotate_y(self, r: Scalar) -> (out: Self) {
        rotation_y(r).mul_point(self)
    }

    fn rotate_z(self, r: Scalar) -> (out: Self) {
        rotation_z(r).mul_point(self)
    }

    fn shear(
        self,
        x_y: Scalar,
        x_z: Scalar,
        y_x: Scalar,
        y_z: Scalar,
        z_x: Scalar,
        z_y: Scalar,
    ) -> (r: Self) {
        shearing(x_y, x_z, y_x, y_z, z_x, z_y).mul_point(self)
    }
}

} // verus!
