use vstd::prelude::*;
use crate::rays::Ray;
use crate::scalar::{lemma_mul_one_and_zero, Scalar};
use crate::shapes::Shape;
use crate::tuples::{Point, Vector};

verus! {

/// What the shading of a hit needs, worked out once.
pub struct Computations<'a> {
    pub t: Scalar,
    pub object: &'a Shape,
    pub point: Point,
    pub eyev: Vector,
    pub normalv: Vector,
    pub reflectv: Vector,
    pub inside: bool,
    pub over_point: Point,
}

/// A meeting of a ray with a shape, at distance `t` along the ray.
#[derive(Debug, Clone, Copy)]
pub struct Intersection<'a> {
    pub t: Scalar,
    pub object: &'a Shape,
}

/// Whether the meeting at index `i` is the hit: its `t` is not negative, no
/// other such `t` is smaller, and none that is equal stands before it.
pub open spec fn is_hit_at(xs: Seq<Intersection>, i: int) -> bool {
    &&& 0 <= i < xs.len()
    &&& xs[i].t.raw >= 0
    &&& forall|j: int|
        0 <= j < xs.len() && xs[j].t.raw >= 0 ==> xs[i].t.raw < xs[j].t.raw || (xs[i].t.raw
            == xs[j].t.raw && i <= j)
}

/// The index of the hit among the first `n` meetings, if there is one.
pub open spec fn spec_hit_index(xs: Seq<Intersection>, n: int) -> Option<int>
    decreases n,
{
    if n <= 0 {
        None
    } else {
        let before = spec_hit_index(xs, n - 1);
        if xs[n - 1].t.raw < 0 {
            before
        } else {
            match before {
                None => Some(n - 1),
                Some(best) => if xs[n - 1].t.raw < xs[best].t.raw {
                    Some(n - 1)
                } else {
                    before
                },
            }
        }
    }
}

/// The hit: the meeting with the smallest `t` that is not negative, and of
/// several with that `t` the first.
pub open spec fn spec_hit<'a>(xs: Seq<Intersection<'a>>) -> Option<Intersection<'a>> {
    match spec_hit_index(xs, xs.len() as int) {
        Some(i) => Some(xs[i]),
        None => None,
    }
}

/// The index that `spec_hit_index` gives is the hit among the first `n`
/// meetings, and it gives none only where every `t` is negative.
pub proof fn lemma_hit_index(xs: Seq<Intersection>, n: int)
    requires
        0 <= n <= xs.len(),
    ensures
        match spec_hit_index(xs, n) {
            Some(i) => is_hit_at(xs.take(n), i),
            None => forall|j: int| 0 <= j < n ==> xs[j].t.raw < 0,
        },
    decreases n,
{
    if n > 0 {
        lemma_hit_index(xs, n - 1);
        let before = spec_hit_index(xs, n - 1);
        let now = spec_hit_index(xs, n);
        assert forall|j: int| 0 <= j < n - 1 implies xs.take(n)[j] == xs.take(n - 1)[j] by {}
        match now {
            Some(i) => {
                assert(is_hit_at(xs.take(n), i)) by {
                    match before {
                        Some(b) => {
                            assert(is_hit_at(xs.take(n - 1), b));
                            assert forall|j: int|
                                0 <= j < n && xs.take(n)[j].t.raw >= 0 implies xs.take(n)[i].t.raw
                                < xs.take(n)[j].t.raw || (xs.take(n)[i].t.raw == xs.take(
                                n,
                            )[j].t.raw && i <= j) by {
                                if j < n - 1 {
                                    assert(xs.take(n - 1)[j].t.raw >= 0);
                                }
                            }
                        },
                        None => {},
                    }
                }
            },
            None => {},
        }
    }
}

/// The hit of a list of meetings: the one with the smallest `t` that is not
/// negative, the first of them where several have that `t`, and none where
/// every `t` is negative.
pub fn hit<'a>(intersections: Vec<Intersection<'a>>) -> (r: Option<Intersection<'a>>)
    ensures
        r == spec_hit(intersections@),
        match r {
            Some(h) => exists|i: int| is_hit_at(intersections@, i) && h == intersections@[i],
            None => forall|j: int| 0 <= j < intersections@.len() ==> intersections@[j].t.raw < 0,
        },
{
    let mut best: Option<usize> = None;
    let mut k: usize = 0;
    while k < intersections.len()
        invariant
            k <= intersections.len(),
            match best {
                Some(b) => b < k && spec_hit_index(intersections@, k as int) == Some(b as int),
                None => spec_hit_index(intersections@, k as int) == None::<int>,
            },
        decreases intersections.len() - k,
    {
        if intersections[k].t.raw >= 0 {
            match best {
                None => {
                    best = Some(k);
                },
                Some(b) => {
                    if intersections[k].t.raw < intersections[b].t.raw {
                        best = Some(k);
                    }
                },
            }
        }
        k += 1;
    }
    proof {
        lemma_hit_index(intersections@, intersections@.len() as int);
        assert(intersections@.take(intersections@.len() as int) =~= intersections@);
    }
    match best {
        Some(b) => Some(intersections[b]),
        None => None,
    }
}

/// On a well-formed ray every position is a point; lifted along a vector
/// it is still a point, and the direction mirrored at a vector is a vector.
pub proof fn lemma_tuple_kinds(ray: Ray, t: Scalar, normalv: Vector)
    requires
        ray.well_formed(),
        normalv.3 == Scalar::zero(),
    ensures
        ray.spec_position(t).3 == Scalar::one(),
        ray.spec_position(t).add(normalv.mul(Scalar::epsilon())).3 == Scalar::one(),
        ray.direction.reflect(normalv).3 == Scalar::zero(),
        normalv.neg().3 == Scalar::zero(),
{
    lemma_mul_one_and_zero(t);
    lemma_mul_one_and_zero(Scalar::epsilon());
    lemma_mul_one_and_zero(Scalar::spec_from_int(2));
    lemma_mul_one_and_zero(ray.direction.spec_dot(&normalv));
}

impl<'a> Intersection<'a> {
    pub open spec fn spec_new(t: Scalar, object: &'a Shape) -> Intersection<'a> {
        Intersection { t, object }
    }

    pub fn new(t: Scalar, object: &'a Shape) -> (i: Intersection<'a>)
        ensures
            i == Intersection::spec_new(t, object),
    {
        Intersection { t, object }
    }

    /// Whether two meetings have the same `t` and equal objects.
    pub open spec fn spec_equals(&self, other: &Intersection) -> bool {
        self.t == other.t && self.object.spec_equals(other.object)
    }

    pub fn equals(&self, other: &Intersection) -> (r: bool)
        ensures
            r == self.spec_equals(other),
    {
        self.t == other.t && self.object.equals(other.object)
    }

    /// What the shading of this meeting needs: the point on the ray, the
    /// vector back to the eye, the normal turned toward the eye, whether it
    /// had to be turned, the point lifted off the surface along the normal
    /// by the tolerance, and the ray's direction mirrored at the surface.
    #[verifier::opaque]
    pub open spec fn spec_prepare_computations(&self, ray: Ray) -> Computations<'a> {
        let point = ray.spec_position(self.t);
        let eyev = ray.direction.neg();
        let normal = self.object.spec_normal_at(point);
        let inside = normal.spec_dot(&eyev).is_negative();
        let normalv = if inside {
            normal.neg()
        } else {
            normal
        };
        Computations {
            t: self.t,
            object: self.object,
            point,
            eyev,
            normalv,
            reflectv: ray.direction.reflect(normalv),
            inside,
            over_point: point.add(normalv.mul(Scalar::epsilon())),
        }
    }

    /// What the shading of this meeting of `ray` needs.
    pub fn prepare_computations(&self, ray: Ray) -> (c: Computations<'a>)
        requires
            self.object.transformation.spec_is_transformation(),
        ensures
            c == self.spec_prepare_computations(ray),
            c.object == self.object,
            ray.well_formed() ==> c.well_formed(),
    {
        reveal(Intersection::spec_prepare_computations);
        let point = ray.position(self.t);
        let eyev = ray.direction.neg();
        let mut normalv = self.object.normal_at(point);
        let inside: bool;
        if normalv.dot(&eyev).is_negative() {
            inside = true;
            normalv = normalv.neg();
        } else {
            inside = false;
        }
        let over_point = point.add(normalv.mul(Scalar::epsilon()));
        let reflectv = ray.direction.reflect(normalv);
        proof {
            if ray.well_formed() {
                lemma_tuple_kinds(ray, self.t, normalv);
            }
        }
        Computations {
            t: self.t,
            object: self.object,
            point,
            eyev,
            normalv,
            reflectv,
            inside,
            over_point,
        }
    }
}

impl<'a> Computations<'a> {
    /// The points are points and the vectors are vectors: `w` is 1 for the
    /// two points and 0 for the normal and the mirrored direction.
    pub open spec fn well_formed(&self) -> bool {
        &&& self.point.3 == Scalar::one()
        &&& self.over_point.3 == Scalar::one()
        &&& self.normalv.3 == Scalar::zero()
        &&& self.reflectv.3 == Scalar::zero()
    }
}

} // verus!
