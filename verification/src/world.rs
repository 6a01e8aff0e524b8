use vstd::prelude::*;
use crate::color::Color;
use crate::intersection::{hit, spec_hit, Computations, Intersection};
use crate::lights::PointLight;
use crate::materials::Material;
use crate::patterns::Solid;
use crate::rays::Ray;
use crate::scalar::Scalar;
use crate::shapes::{is_random_id, Shape, ShapeKind, Sphere};
use crate::transformation::{scaling, spec_scaling};
use crate::tuples::Point;

verus! {

/// The shapes of a scene, in the order in which they were added, and its
/// one light.
pub struct World {
    pub objects: Vec<Shape>,
    pub light: PointLight,
}

/// Whether each `t` is at most the next.
pub open spec fn sorted_by_t(xs: Seq<Intersection>) -> bool {
    forall|i: int, j: int| 0 <= i < j < xs.len() ==> xs[i].t.raw <= xs[j].t.raw
}

/// A sorted list with one more meeting: it stands behind every meeting
/// whose `t` is at most its own.
pub open spec fn spec_insert_by_t<'a>(sorted: Seq<Intersection<'a>>, x: Intersection<'a>) -> Seq<
    Intersection<'a>,
>
    decreases sorted.len(),
{
    if sorted.len() == 0 {
        seq![x]
    } else if sorted.last().t.raw <= x.t.raw {
        sorted.push(x)
    } else {
        spec_insert_by_t(sorted.drop_last(), x).push(sorted.last())
    }
}

/// The meetings in ascending order of `t`; those with the same `t` keep
/// their order.
pub open spec fn spec_sort_by_t<'a>(xs: Seq<Intersection<'a>>) -> Seq<Intersection<'a>>
    decreases xs.len(),
{
    if xs.len() == 0 {
        Seq::empty()
    } else {
        spec_insert_by_t(spec_sort_by_t(xs.drop_last()), xs.last())
    }
}

/// Where a meeting goes into a sorted list: before the meetings with a
/// larger `t`, behind the others.
proof fn lemma_insert_position(sorted: Seq<Intersection>, x: Intersection, pos: int)
    requires
        0 <= pos <= sorted.len(),
        forall|j: int| pos <= j < sorted.len() ==> sorted[j].t.raw > x.t.raw,
        pos == 0 || sorted[pos - 1].t.raw <= x.t.raw,
    ensures
        spec_insert_by_t(sorted, x) == sorted.insert(pos, x),
    decreases sorted.len(),
{
    if sorted.len() == 0 {
        assert(seq![x] =~= sorted.insert(pos, x));
    } else if pos == sorted.len() {
        assert(sorted.push(x) =~= sorted.insert(pos, x));
    } else {
        lemma_insert_position(sorted.drop_last(), x, pos);
        assert(sorted.drop_last().insert(pos, x).push(sorted.last()) =~= sorted.insert(pos, x));
    }
}

/// A meeting put into a sorted list at its position leaves the list sorted,
/// and adds itself to what the list holds.
proof fn lemma_insert_keeps(sorted: Seq<Intersection>, x: Intersection, pos: int)
    requires
        sorted_by_t(sorted),
        0 <= pos <= sorted.len(),
        forall|j: int| pos <= j < sorted.len() ==> sorted[j].t.raw > x.t.raw,
        pos == 0 || sorted[pos - 1].t.raw <= x.t.raw,
    ensures
        sorted_by_t(sorted.insert(pos, x)),
        sorted.insert(pos, x).to_multiset() == sorted.to_multiset().insert(x),
{
    let grown = sorted.insert(pos, x);
    assert forall|i: int, j: int| 0 <= i < j < grown.len() implies grown[i].t.raw
        <= grown[j].t.raw by {
        if j < pos {
            assert(grown[i] == sorted[i] && grown[j] == sorted[j]);
        } else if j == pos {
            assert(grown[i] == sorted[i]);
            if i < pos - 1 {
                assert(sorted[i].t.raw <= sorted[pos - 1].t.raw);
            }
        } else if i < pos {
            assert(grown[i] == sorted[i] && grown[j] == sorted[j - 1]);
        } else if i == pos {
            assert(grown[j] == sorted[j - 1]);
        } else {
            assert(grown[i] == sorted[i - 1] && grown[j] == sorted[j - 1]);
        }
    }
    assert(grown.remove(pos) =~= sorted);
    assert(grown[pos] == x);
    vstd::seq_lib::to_multiset_remove(grown, pos);
    assert(grown.contains(x));
    grown.to_multiset_ensures();
    assert(grown.to_multiset().count(x) > 0);
    assert(grown.to_multiset() =~= sorted.to_multiset().insert(x));
}

/// Sorts the meetings by `t`, ascending; those with the same `t` keep their
/// order.
pub fn sort_by_t<'a>(xs: Vec<Intersection<'a>>) -> (out: Vec<Intersection<'a>>)
    ensures
        out@ == spec_sort_by_t(xs@),
        sorted_by_t(out@),
        out@.to_multiset() == xs@.to_multiset(),
        forall|i: int| 0 <= i < out@.len() ==> xs@.contains(#[trigger] out@[i]),
{
    let mut out: Vec<Intersection<'a>> = Vec::new();
    let mut k: usize = 0;
    assert(xs@.take(0) =~= Seq::<Intersection<'a>>::empty());
    while k < xs.len()
        invariant
            k <= xs.len(),
            out@ == spec_sort_by_t(xs@.take(k as int)),
            sorted_by_t(out@),
            out@.to_multiset() == xs@.take(k as int).to_multiset(),
            forall|i: int| 0 <= i < out@.len() ==> xs@.contains(#[trigger] out@[i]),
        decreases xs.len() - k,
    {
        let x = xs[k];
        let mut pos: usize = out.len();
        while pos > 0 && out[pos - 1].t.raw > x.t.raw
            invariant
                pos <= out.len(),
                forall|j: int| pos <= j < out@.len() ==> out@[j].t.raw > x.t.raw,
            decreases pos,
        {
            pos -= 1;
        }
        proof {
            lemma_insert_position(out@, x, pos as int);
            assert(xs@.take(k + 1).drop_last() =~= xs@.take(k as int));
            assert(xs@.take(k + 1).last() == x);
            assert(xs@.take(k + 1) =~= xs@.take(k as int).push(x));
            lemma_insert_keeps(out@, x, pos as int);
            vstd::seq_lib::to_multiset_build(xs@.take(k as int), x);
            let grown = out@.insert(pos as int, x);
            assert forall|i: int| 0 <= i < grown.len() implies xs@.contains(#[trigger] grown[i]) by {
                if i < pos {
                    assert(grown[i] == out@[i]);
                } else if i == pos {
                    assert(xs@[k as int] == x);
                } else {
                    assert(grown[i] == out@[i - 1]);
                }
            }
        }
        out.insert(pos, x);
        k += 1;
    }
    assert(xs@.take(xs@.len() as int) =~= xs@);
    out
}

/// Whether two hits are the same but for how much their materials mirror.
pub open spec fn same_but_reflective(first: Computations, second: Computations) -> bool {
    &&& first.t == second.t
    &&& first.point == second.point
    &&& first.eyev == second.eyev
    &&& first.normalv == second.normalv
    &&& first.reflectv == second.reflectv
    &&& first.inside == second.inside
    &&& first.over_point == second.over_point
    &&& first.object.kind == second.object.kind
    &&& first.object.transformation == second.object.transformation
    &&& first.object.material == (Material {
        reflective: first.object.material.reflective,
        ..second.object.material
    })
}

/// With no mirroring left a hit mirrors nothing, so its color is that of
/// its surface alone, however much its material mirrors: two hits that are
/// the same but for `reflective` have the same color.
pub proof fn lemma_no_mirroring_left(world: &World, first: Computations, second: Computations)
    requires
        same_but_reflective(first, second),
    ensures
        world.spec_reflected_color(first, 0) == Color::black(),
        world.spec_shade_hit(first, 0) == first.object.material.spec_lighting(
            &world.light,
            first.point,
            first.eyev,
            first.normalv,
            world.spec_is_shadowed(first.over_point),
            first.object,
        ).add(Color::black()),
        world.spec_shade_hit(first, 0) == world.spec_shade_hit(second, 0),
{
    reveal(Material::spec_lighting);
}

impl World {
    /// Every shape is valid and the light stands at a point.
    pub open spec fn valid(&self) -> bool {
        &&& self.light.position.3 == Scalar::one()
        &&& forall|i: int| 0 <= i < self.objects.len() ==> (#[trigger] self.objects[i]).valid()
    }

    /// Whether the world is valid.
    pub fn is_valid(&self) -> (r: bool)
        ensures
            r == self.valid(),
    {
        if self.light.position.3 != Scalar::one() {
            return false;
        }
        let mut i: usize = 0;
        while i < self.objects.len()
            invariant
                i <= self.objects.len(),
                forall|j: int| 0 <= j < i ==> (#[trigger] self.objects[j]).valid(),
            decreases self.objects.len() - i,
        {
            if !self.objects[i].is_valid() {
                return false;
            }
            i += 1;
        }
        true
    }

    /// A world without shapes, with a black light at the origin.
    pub fn new() -> (w: World)
        ensures
            w.objects@.len() == 0,
            w.light == PointLight::spec_new(Point::origin(), Color::black()),
    {
        World { objects: Vec::new(), light: PointLight::new(Point::origin(), Color::black()) }
    }

    /// The light of the default world: white, at `(-10, 10, -10)`.
    pub open spec fn spec_default_light() -> PointLight {
        PointLight::spec_new(
            Point::spec_new(
                Scalar::spec_from_int(10).neg(),
                Scalar::spec_from_int(10),
                Scalar::spec_from_int(10).neg(),
            ),
            Color::white(),
        )
    }

    /// The outer sphere of the default world: a unit sphere of color
    /// `(0.8, 1.0, 0.6)` with diffuse 0.7 and specular 0.2.
    pub open spec fn spec_default_outer(id: u128) -> Shape {
        Shape {
            id,
            kind: ShapeKind::Sphere,
            transformation: crate::matrices::Matrix::identity(),
            material: Material {
                pattern: Solid::spec_new(
                    Color(
                        Scalar::spec_from_ratio(8, 10),
                        Scalar::one(),
                        Scalar::spec_from_ratio(6, 10),
                    ),
                ),
                diffuse: Scalar::spec_from_ratio(7, 10),
                specular: Scalar::spec_from_ratio(2, 10),
                ..Material::spec_new()
            },
        }
    }

    /// The inner sphere of the default world: a sphere of radius one half
    /// with the default material.
    pub open spec fn spec_default_inner(id: u128) -> Shape {
        Shape {
            id,
            kind: ShapeKind::Sphere,
            transformation: spec_scaling(
                Scalar::spec_from_ratio(1, 2),
                Scalar::spec_from_ratio(1, 2),
                Scalar::spec_from_ratio(1, 2),
            ),
            material: Material::spec_new(),
        }
    }

    /// The default world: the default light and two spheres around the
    /// origin, the outer one first.
    pub fn default() -> (w: World)
        ensures
            w.light == World::spec_default_light(),
            w.objects@.len() == 2,
            w.objects[0] == World::spec_default_outer(w.objects[0].id),
            w.objects[1] == World::spec_default_inner(w.objects[1].id),
            is_random_id(w.objects[0].id),
            is_random_id(w.objects[1].id),
            w.valid(),
    {
        proof {
            let half = Scalar { raw: 0x8000_0000 };
            crate::scalar::lemma_from_ratio_is(1, 2, 0x8000_0000);
            crate::scalar::lemma_mul_is(half, half, 0x4000_0000);
            crate::scalar::lemma_mul_is(half, Scalar { raw: 0x4000_0000 }, 0x2000_0000);
            crate::matrices::lemma_identity_is_transformation();
            crate::transformation::lemma_scaling_determinant(half, half, half);
        }
        let light = PointLight::new(
            Point::new(Scalar::from_int(10).neg(), Scalar::from_int(10), Scalar::from_int(10).neg()),
            Color::white(),
        );
        let mut s1 = Sphere::new();
        s1.material.pattern = Solid::new(
            Color(Scalar::from_ratio(8, 10), Scalar::one(), Scalar::from_ratio(6, 10)),
        );
        s1.material.diffuse = Scalar::from_ratio(7, 10);
        s1.material.specular = Scalar::from_ratio(2, 10);
        let mut s2 = Sphere::new();
        s2.set_transformation(
            scaling(Scalar::from_ratio(1, 2), Scalar::from_ratio(1, 2), Scalar::from_ratio(1, 2)),
        );
        assert(s1.valid());
        assert(s2.valid());
        let mut objects: Vec<Shape> = Vec::new();
        objects.push(s1);
        objects.push(s2);
        World { objects, light }
    }

    /// The meetings of a ray with the first `n` shapes, shape after shape.
    pub open spec fn spec_all_intersections<'a>(&'a self, r: Ray, n: int) -> Seq<Intersection<'a>>
        decreases n,
    {
        if n <= 0 {
            Seq::empty()
        } else {
            self.spec_all_intersections(r, n - 1) + self.objects[n - 1].spec_intersect(r)
        }
    }

    /// The meetings of a ray with every shape, in ascending order of `t`;
    /// of two with the same `t` the one of the earlier shape comes first.
    pub open spec fn spec_intersect<'a>(&'a self, r: Ray) -> Seq<Intersection<'a>> {
        spec_sort_by_t(self.spec_all_intersections(r, self.objects.len() as int))
    }

    /// The meetings of a ray with every shape of the world, sorted by `t`.
    pub fn intersect<'a>(&'a self, r: Ray) -> (xs: Vec<Intersection<'a>>)
        requires
            self.valid(),
        ensures
            xs@ == self.spec_intersect(r),
            sorted_by_t(xs@),
            xs@.to_multiset() == self.spec_all_intersections(
                r,
                self.objects.len() as int,
            ).to_multiset(),
            forall|i: int| 0 <= i < xs@.len() ==> (#[trigger] xs@[i]).object.valid(),
    {
        let mut all: Vec<Intersection<'a>> = Vec::new();
        let mut k: usize = 0;
        while k < self.objects.len()
            invariant
                self.valid(),
                k <= self.objects.len(),
                all@ == self.spec_all_intersections(r, k as int),
                forall|i: int| 0 <= i < all@.len() ==> (#[trigger] all@[i]).object.valid(),
            decreases self.objects.len() - k,
        {
            let mut found = self.objects[k].intersect(r);
            assert(self.objects[k as int].valid());
            all.append(&mut found);
            k += 1;
        }
        let sorted = sort_by_t(all);
        assert forall|i: int| 0 <= i < sorted@.len() implies (#[trigger] sorted@[i]).object.valid() by {
            assert(all@.contains(sorted@[i]));
        }
        sorted
    }

    /// Whether something stands between a point and the light: a ray from
    /// the point toward the light has a hit nearer than the light.
    #[verifier::opaque]
    pub open spec fn spec_is_shadowed(&self, point: Point) -> bool {
        let v = self.light.position.sub(point);
        match spec_hit(self.spec_intersect(Ray { origin: point, direction: v.normalize() })) {
            Some(h) => h.t.lt(v.spec_magnitude()),
            None => false,
        }
    }

    /// Whether a point lies in the shadow of a shape.
    pub fn is_shadowed(&self, point: Point) -> (r: bool)
        requires
            self.valid(),
            point.3 == Scalar::one(),
        ensures
            r == self.spec_is_shadowed(point),
    {
        reveal(World::spec_is_shadowed);
        let v = self.light.position.sub(point);
        let distance = v.magnitude();
        let direction = v.normalize();
        let r = Ray::new(point, direction);
        let intersections = self.intersect(r);
        match hit(intersections) {
            Some(h) => h.t.lt(distance),
            None => false,
        }
    }

    /// The color of a hit: what the light gives its surface, plus what the
    /// surface mirrors.
    pub open spec fn spec_shade_hit(&self, comps: Computations, remaining: nat) -> Color
        decreases remaining, 1int,
    {
        comps.object.material.spec_lighting(
            &self.light,
            comps.point,
            comps.eyev,
            comps.normalv,
            self.spec_is_shadowed(comps.over_point),
            comps.object,
        ).add(self.spec_reflected_color(comps, remaining))
    }

    /// The color that a hit mirrors: black when no mirroring is left or
    /// the material mirrors nothing, else the color seen along the mirrored
    /// ray with one mirroring less, times `reflective`.
    pub open spec fn spec_reflected_color(&self, comps: Computations, remaining: nat) -> Color
        decreases remaining, 0int,
    {
        if remaining == 0 || comps.object.material.reflective == Scalar::zero() {
            Color::black()
        } else {
            self.spec_color_at(
                Ray { origin: comps.over_point, direction: comps.reflectv },
                (remaining - 1) as nat,
            ).mul(comps.object.material.reflective)
        }
    }

    /// The color seen along a ray: black where it hits nothing, else the
    /// color of its hit.
    pub open spec fn spec_color_at(&self, r: Ray, remaining: nat) -> Color
        decreases remaining, 2int,
    {
        match spec_hit(self.spec_intersect(r)) {
            None => Color::black(),
            Some(h) => self.spec_shade_hit(h.spec_prepare_computations(r), remaining),
        }
    }

    /// The color of a hit, with `remaining` mirrorings left to follow.
    pub fn shade_hit(&self, comps: Computations, remaining: usize) -> (c: Color)
        requires
            self.valid(),
            comps.object.valid(),
            comps.well_formed(),
        ensures
            c == self.spec_shade_hit(comps, remaining as nat),
        decreases remaining, 1int,
    {
        let shadowed = self.is_shadowed(comps.over_point);
        let surface = comps.object.material.lighting(
            &self.light,
            comps.point,
            comps.eyev,
            comps.normalv,
            shadowed,
            comps.object,
        );
        let reflected = self.reflected_color(comps, remaining);
        surface.add(reflected)
    }

    /// The color seen along a ray, with `remaining` mirrorings left to
    /// follow. Each mirroring takes one away, so the tracing of a ray ends
    /// however the mirrors stand.
    pub fn color_at(&self, r: Ray, remaining: usize) -> (c: Color)
        requires
            self.valid(),
            r.well_formed(),
        ensures
            c == self.spec_color_at(r, remaining as nat),
        decreases remaining, 2int,
    {
        let intersections = self.intersect(r);
        match hit(intersections) {
            None => Color::black(),
            Some(h) => {
                let comps = h.prepare_computations(r);
                self.shade_hit(comps, remaining)
            },
        }
    }

    /// The color that a hit mirrors, with `remaining` mirrorings left to
    /// follow.
    pub fn reflected_color(&self, comps: Computations, remaining: usize) -> (c: Color)
        requires
            self.valid(),
            comps.object.valid(),
            comps.well_formed(),
        ensures
            c == self.spec_reflected_color(comps, remaining as nat),
        decreases remaining, 0int,
    {
        if remaining == 0 || comps.object.material.reflective.is_zero() {
            return Color::black();
        }
        let reflect_ray = Ray::new(comps.over_point, comps.reflectv);
        let color = self.color_at(reflect_ray, remaining - 1);
        color.mul(comps.object.material.reflective)
    }
}

} // verus!
