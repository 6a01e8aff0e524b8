use vstd::prelude::*;
use crate::intersection::Intersection;
use crate::materials::Material;
use crate::matrices::Matrix;
use crate::rays::Ray;
use crate::scalar::Scalar;
use crate::tuples::{Point, Vector};

verus! {

/// The surface of a shape in its own space.
#[derive(Debug, Clone, Copy, PartialEq, Eq, Structural)]
pub enum ShapeKind {
    /// The sphere of radius 1 around the origin.
    Sphere,
    /// The plane through the origin across x and z.
    Plane,
}

/// A surface in the world: what it is in its own space, the transformation
/// from that space to the world, its material, and an identifier that tells
/// it from every other shape.
#[derive(Debug)]
pub struct Shape {
    pub id: u128,
    pub kind: ShapeKind,
    pub transformation: Matrix,
    pub material: Material,
}

/// Makes unit spheres.
pub struct Sphere;

/// Makes planes.
pub struct Plane;

/// The bits of an identifier that say how it was made, and what they read
/// in a random one: version 4, variant binary 10.
pub const ID_FORMAT_MASK: u128 = 0x0000_0000_0000_f000_c000_0000_0000_0000;

pub const ID_FORMAT_RANDOM: u128 = 0x0000_0000_0000_4000_8000_0000_0000_0000;

/// Whether an identifier has the format of a random one.
pub open spec fn is_random_id(id: u128) -> bool {
    id & ID_FORMAT_MASK == ID_FORMAT_RANDOM
}

/// Calls `uuid::Uuid::new_v4` and reads the result with `Uuid::as_u128`.
/// The value is random, so nothing is claimed of it but its format: the
/// four version bits read 4 and the two variant bits read binary 10, as
/// `new_v4` sets them. Nothing is proved of this function. `new_v4` takes
/// its bits from the system and panics where the system gives none.
#[verifier::external_body]
fn fresh_id() -> (id: u128)
    ensures
        is_random_id(id),
{
    uuid::Uuid::new_v4().as_u128()
}

impl Clone for Shape {
    fn clone(&self) -> (r: Self)
        ensures
            r == *self,
    {
        Shape {
            id: self.id,
            kind: self.kind,
            transformation: self.transformation,
            material: self.material.clone(),
        }
    }
}

impl Shape {
    /// The transformation is a 4 x 4 matrix with an inverse, and the
    /// material's pattern is valid.
    pub open spec fn valid(&self) -> bool {
        self.transformation.spec_is_transformation() && self.material.pattern.valid()
    }

    /// Whether the shape is valid.
    pub fn is_valid(&self) -> (r: bool)
        ensures
            r == self.valid(),
    {
        self.transformation.is_transformation() && self.material.pattern.is_valid()
    }

    pub open spec fn spec_with_id(id: u128, kind: ShapeKind) -> Shape {
        Shape { id, kind, transformation: Matrix::identity(), material: Material::spec_new() }
    }

    /// A shape as it is made is valid.
    pub proof fn lemma_new_shape_is_valid(id: u128, kind: ShapeKind)
        ensures
            Shape::spec_with_id(id, kind).valid(),
    {
        crate::matrices::lemma_identity_is_transformation();
    }

    /// The shape of a kind with a given identifier, the identity as
    /// transformation and the default material.
    pub fn with_id(id: u128, kind: ShapeKind) -> (s: Shape)
        ensures
            s == Shape::spec_with_id(id, kind),
            s.valid(),
    {
        proof {
            Shape::lemma_new_shape_is_valid(id, kind);
        }
        Shape { id, kind, transformation: Matrix::identity(), material: Material::new() }
    }

    /// Whether two shapes are one and the same: they carry the same
    /// identifier.
    pub fn is_same(&self, other: &Shape) -> (r: bool)
        ensures
            r == (self.id == other.id),
    {
        self.id == other.id
    }

    /// Whether two shapes are of the same kind, with transformations within
    /// the tolerance of each other and equal materials.
    pub open spec fn spec_equals(&self, other: &Shape) -> bool {
        self.kind == other.kind && self.transformation.spec_approx_eq(&other.transformation)
            && self.material.spec_equals(&other.material)
    }

    pub fn equals(&self, other: &Shape) -> (r: bool)
        ensures
            r == self.spec_equals(other),
    {
        self.kind == other.kind && self.transformation == other.transformation && self.material
            == other.material
    }

    pub fn material(&self) -> (m: Material)
        ensures
            m == self.material,
    {
        self.material.clone()
    }

    pub fn set_material(&mut self, m: Material)
        ensures
            *final(self) == (Shape { material: m, ..*old(self) }),
    {
        self.material = m;
    }

    pub fn transformation(&self) -> (m: Matrix)
        ensures
            m == self.transformation,
    {
        self.transformation
    }

    pub fn set_transformation(&mut self, m: Matrix)
        ensures
            *final(self) == (Shape { transformation: m, ..*old(self) }),
    {
        self.transformation = m;
    }

    /// Where a ray in the shape's own space meets a unit sphere: with
    /// `a = d.d`, `b = 2 d.o` and `c = o.o - 1` for the direction `d` and
    /// the origin `o` as a vector, nowhere if `b^2 - 4ac` is negative, else
    /// at `(-b - root) / 2a` and `(-b + root) / 2a`, also where the two are
    /// the same.
    pub open spec fn spec_sphere_times(ray: Ray) -> Seq<Scalar> {
        let sphere_to_ray = ray.origin.sub(Point::origin());
        let a = ray.direction.spec_dot(&ray.direction);
        let b = Scalar::spec_from_int(2).mul(ray.direction.spec_dot(&sphere_to_ray));
        let c = sphere_to_ray.spec_dot(&sphere_to_ray).sub(Scalar::one());
        let discriminant = b.mul(b).sub(Scalar::spec_from_int(4).mul(a).mul(c));
        if discriminant.is_negative() {
            Seq::empty()
        } else {
            let root = discriminant.sqrt();
            let twice_a = Scalar::spec_from_int(2).mul(a);
            seq![b.neg().sub(root).div(twice_a), b.neg().add(root).div(twice_a)]
        }
    }

    /// Where a ray in the shape's own space meets the plane: nowhere if the
    /// ray's rise is under the tolerance, else at `-o.y / d.y`.
    pub open spec fn spec_plane_times(ray: Ray) -> Seq<Scalar> {
        if ray.direction.1.abs().lt(Scalar::epsilon()) {
            Seq::empty()
        } else {
            seq![ray.origin.1.neg().div(ray.direction.1)]
        }
    }

    /// The distances along a ray in the shape's own space at which it meets
    /// the shape.
    #[verifier::opaque]
    pub open spec fn spec_local_times(&self, local_ray: Ray) -> Seq<Scalar> {
        match self.kind {
            ShapeKind::Sphere => Shape::spec_sphere_times(local_ray),
            ShapeKind::Plane => Shape::spec_plane_times(local_ray),
        }
    }

    /// The meetings of a ray in the shape's own space with the shape, each
    /// with this shape as its object.
    pub open spec fn spec_local_intersect<'a>(&'a self, local_ray: Ray) -> Seq<Intersection<'a>> {
        let times = self.spec_local_times(local_ray);
        Seq::new(times.len(), |i: int| Intersection { t: times[i], object: self })
    }

    /// A ray in a sphere's own space that starts inside the sphere meets it
    /// twice, once behind its origin and once ahead of it, and both
    /// meetings are with this sphere. This is proved where the ray starts
    /// at least 1/4096 inside, `o.o <= 1 - 1/4096` for its origin `o` as a
    /// vector, and its direction `d` is neither very short nor very long:
    /// `d.d` between 1/256 and 64, and `d.o` of size 8 at most.
    pub proof fn lemma_ray_from_inside_sphere(&self, local_ray: Ray)
        requires
            self.kind == ShapeKind::Sphere,
            crate::accuracy::DIRECTION_FLOOR <= local_ray.direction.spec_dot(
                &local_ray.direction,
            ).raw <= crate::accuracy::DIRECTION_LIMIT,
            crate::accuracy::size(
                local_ray.direction.spec_dot(&local_ray.origin.sub(Point::origin())).raw as int,
            ) <= crate::accuracy::SLANT_LIMIT,
            local_ray.origin.sub(Point::origin()).spec_dot(
                &local_ray.origin.sub(Point::origin()),
            ).raw <= 0x1_0000_0000 - crate::accuracy::INSIDE_MARGIN,
        ensures
            self.spec_local_intersect(local_ray).len() == 2,
            self.spec_local_intersect(local_ray)[0].t.raw < 0,
            self.spec_local_intersect(local_ray)[1].t.raw > 0,
            self.spec_local_intersect(local_ray)[0].object == self,
            self.spec_local_intersect(local_ray)[1].object == self,
    {
        reveal(Shape::spec_local_times);
        let to_ray = local_ray.origin.sub(Point::origin());
        let a = local_ray.direction.spec_dot(&local_ray.direction);
        let slant = local_ray.direction.spec_dot(&to_ray);
        let reach = to_ray.spec_dot(&to_ray);
        assert(0 <= to_ray.0.raw * to_ray.0.raw && 0 <= to_ray.1.raw * to_ray.1.raw && 0
            <= to_ray.2.raw * to_ray.2.raw && 0 <= to_ray.3.raw * to_ray.3.raw)
            by (nonlinear_arith);
        assert(0 <= reach.raw);
        let c = reach.sub(Scalar::one());
        crate::accuracy::lemma_from_inside_behind_and_ahead(a, slant, c);
    }

    /// The meetings of a ray in the shape's own space with the shape.
    pub fn local_intersect<'a>(&'a self, local_ray: Ray) -> (xs: Vec<Intersection<'a>>)
        ensures
            xs@ == self.spec_local_intersect(local_ray),
            xs@.len() <= 2,
            forall|i: int| 0 <= i < xs@.len() ==> (#[trigger] xs@[i]).object == self,
    {
        reveal(Shape::spec_local_times);
        let mut xs: Vec<Intersection<'a>> = Vec::new();
        match self.kind {
            ShapeKind::Sphere => {
                let sphere_to_ray = local_ray.origin.sub(Point::origin());
                let a = local_ray.direction.dot(&local_ray.direction);
                let b = Scalar::from_int(2).mul(local_ray.direction.dot(&sphere_to_ray));
                let c = sphere_to_ray.dot(&sphere_to_ray).sub(Scalar::one());
                let discriminant = b.mul(b).sub(Scalar::from_int(4).mul(a).mul(c));
                if !discriminant.is_negative() {
                    let root = discriminant.sqrt();
                    let twice_a = Scalar::from_int(2).mul(a);
                    xs.push(Intersection::new(b.neg().sub(root).div(twice_a), self));
                    xs.push(Intersection::new(b.neg().add(root).div(twice_a), self));
                }
            },
            ShapeKind::Plane => {
                if !local_ray.direction.1.abs().lt(Scalar::epsilon()) {
                    xs.push(
                        Intersection::new(local_ray.origin.1.neg().div(local_ray.direction.1), self),
                    );
                }
            },
        }
        assert(xs@ =~= self.spec_local_intersect(local_ray));
        xs
    }

    /// The meetings of a ray of the world with the shape: those of the ray
    /// taken into the shape's own space by the inverse of its
    /// transformation.
    #[verifier::opaque]
    pub open spec fn spec_intersect<'a>(&'a self, ray: Ray) -> Seq<Intersection<'a>> {
        self.spec_local_intersect(ray.spec_transform(self.transformation.spec_inverse()))
    }

    /// The meetings of a ray of the world with the shape.
    pub fn intersect<'a>(&'a self, ray: Ray) -> (xs: Vec<Intersection<'a>>)
        requires
            self.transformation.spec_is_transformation(),
        ensures
            xs@ == self.spec_intersect(ray),
            xs@.len() <= 2,
            forall|i: int| 0 <= i < xs@.len() ==> (#[trigger] xs@[i]).object == self,
    {
        reveal(Shape::spec_intersect);
        let local_ray = ray.transform(self.transformation.inverse());
        self.local_intersect(local_ray)
    }

    /// The normal at a point of the shape's surface, in its own space: for
    /// a sphere the point as a vector, for a plane straight up.
    pub open spec fn spec_local_normal_at(&self, local_point: Point) -> Vector {
        match self.kind {
            ShapeKind::Sphere => Vector::spec_new(local_point.0, local_point.1, local_point.2),
            ShapeKind::Plane => Vector::spec_new(Scalar::zero(), Scalar::one(), Scalar::zero()),
        }
    }

    /// The normal at a point of the shape's surface, in its own space.
    pub fn local_normal_at(&self, local_point: Point) -> (n: Vector)
        ensures
            n == self.spec_local_normal_at(local_point),
    {
        match self.kind {
            ShapeKind::Sphere => Vector::new(local_point.0, local_point.1, local_point.2),
            ShapeKind::Plane => Vector::new(Scalar::zero(), Scalar::one(), Scalar::zero()),
        }
    }

    /// The normal at a point of the world before it is brought to length 1.
    /// The point is taken into the shape's own space, the normal there is
    /// taken back by the transposed inverse, and its `w` is set to 0.
    pub open spec fn spec_long_normal_at(&self, point: Point) -> Vector {
        let inverse = self.transformation.spec_inverse();
        let local_normal = self.spec_local_normal_at(inverse.spec_mul_point(point));
        let world_normal = inverse.spec_transpose().spec_mul_vector(local_normal);
        Vector(world_normal.0, world_normal.1, world_normal.2, Scalar::zero())
    }

    /// The normal at a point of the world on the shape's surface: the
    /// normal of the matching point of the shape's own space, taken back to
    /// the world and brought to length 1.
    #[verifier::opaque]
    pub open spec fn spec_normal_at(&self, point: Point) -> Vector {
        self.spec_long_normal_at(point).normalize()
    }

    /// The normal at a point has length 1 within the tolerance, where before
    /// it is brought to that length none of its components is larger than
    /// 16384 and its length is found to be at least one sixteenth.
    pub proof fn lemma_normal_is_unit(&self, point: Point)
        requires
            crate::accuracy::size(self.spec_long_normal_at(point).0.raw as int)
                <= crate::accuracy::COMPONENT_LIMIT,
            crate::accuracy::size(self.spec_long_normal_at(point).1.raw as int)
                <= crate::accuracy::COMPONENT_LIMIT,
            crate::accuracy::size(self.spec_long_normal_at(point).2.raw as int)
                <= crate::accuracy::COMPONENT_LIMIT,
            self.spec_long_normal_at(point).spec_magnitude().raw >= crate::accuracy::LENGTH_FLOOR,
        ensures
            self.spec_normal_at(point).spec_magnitude().approx_eq(Scalar::one()),
            self.spec_normal_at(point).spec_magnitude().sub(Scalar::one()).abs().lt(
                Scalar::epsilon(),
            ),
            self.spec_normal_at(point).3 == Scalar::zero(),
    {
        reveal(Shape::spec_normal_at);
        crate::accuracy::lemma_normalize_is_unit(self.spec_long_normal_at(point));
    }

    /// On a unit sphere that is not transformed the normal at a point is the
    /// point as a vector, brought to length 1. It has length 1 within the
    /// tolerance where no coordinate of the point is larger than 16384 and
    /// its distance from the origin is found to be at least one sixteenth,
    /// as it is for every point on the sphere.
    pub proof fn lemma_plain_sphere_normal_is_unit(&self, point: Point)
        requires
            self.kind == ShapeKind::Sphere,
            self.transformation == Matrix::identity(),
            crate::accuracy::size(point.0.raw as int) <= crate::accuracy::COMPONENT_LIMIT,
            crate::accuracy::size(point.1.raw as int) <= crate::accuracy::COMPONENT_LIMIT,
            crate::accuracy::size(point.2.raw as int) <= crate::accuracy::COMPONENT_LIMIT,
            Vector::spec_new(point.0, point.1, point.2).spec_magnitude().raw
                >= crate::accuracy::LENGTH_FLOOR,
        ensures
            self.spec_normal_at(point) == Vector::spec_new(point.0, point.1, point.2).normalize(),
            self.spec_normal_at(point).spec_magnitude().approx_eq(Scalar::one()),
            self.spec_normal_at(point).spec_magnitude().sub(Scalar::one()).abs().lt(
                Scalar::epsilon(),
            ),
    {
        let identity = Matrix::identity();
        crate::matrices::lemma_identity_inverse();
        crate::matrices::lemma_identity_keeps_point(point);
        assert(identity.spec_transpose() == identity);
        let local_normal = Vector::spec_new(point.0, point.1, point.2);
        crate::matrices::lemma_identity_keeps_vector(local_normal);
        assert(self.spec_long_normal_at(point) == local_normal);
        self.lemma_normal_is_unit(point);
        reveal(Shape::spec_normal_at);
    }

    /// The normal at a point of the world on the shape's surface.
    pub fn normal_at(&self, point: Point) -> (n: Vector)
        requires
            self.transformation.spec_is_transformation(),
        ensures
            n == self.spec_normal_at(point),
            n.3 == Scalar::zero(),
    {
        reveal(Shape::spec_normal_at);
        let inverse = self.transformation.inverse();
        let local_point = inverse.mul_point(point);
        let local_normal = self.local_normal_at(local_point);
        let world_normal = inverse.transpose().mul_vector(local_normal);
        Vector(world_normal.0, world_normal.1, world_normal.2, Scalar::zero()).normalize()
    }
}

impl Sphere {
    /// A unit sphere around the origin with a new random identifier, the
    /// identity as transformation and the default material.
    pub fn new() -> (s: Shape)
        ensures
            s == Shape::spec_with_id(s.id, ShapeKind::Sphere),
            is_random_id(s.id),
            s.valid(),
    {
        Shape::with_id(fresh_id(), ShapeKind::Sphere)
    }
}

impl Plane {
    /// The plane across x and z with a new random identifier, the identity
    /// as transformation and the default material.
    pub fn new() -> (s: Shape)
        ensures
            s == Shape::spec_with_id(s.id, ShapeKind::Plane),
            is_random_id(s.id),
            s.valid(),
    {
        Shape::with_id(fresh_id(), ShapeKind::Plane)
    }
}

} // verus!
