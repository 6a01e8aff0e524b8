use vstd::prelude::*;
use crate::canvas::Canvas;
use crate::color::Color;
use crate::experiments::scene::{scene_camera, scene_light, spec_scene_camera, spec_scene_light};
use crate::experiments::validity::{
    lemma_crossed_stripes_is_valid,
    lemma_first_page_is_valid,
    lemma_floor_scene_is_valid,
    lemma_nested_checks_is_valid,
    lemma_radial_fade_is_valid,
    lemma_scene_camera_is_valid,
};
use crate::lights::PointLight;
use crate::materials::Material;
use crate::matrices::Matrix;
use crate::patterns::{Blended, Checker, Gradient, Pattern, RadialGradient, Ring, Solid, Stripe};
use crate::scalar::Scalar;
use crate::shapes::{Plane, Shape, ShapeKind, Sphere};
use crate::transformation::{rotation_x, rotation_y, rotation_z, scaling, translation};
use crate::world::World;

verus! {

/// A shape of a kind with a transformation and, but for the pattern, the
/// default material.
pub open spec fn spec_patterned(
    id: u128,
    kind: ShapeKind,
    transformation: Matrix,
    pattern: Pattern,
) -> Shape {
    Shape {
        transformation,
        material: Material { pattern, ..Material::spec_new() },
        ..Shape::spec_with_id(id, kind)
    }
}

fn patterned(kind: ShapeKind, transformation: Matrix, pattern: Pattern) -> (s: Shape)
    ensures
        s == spec_patterned(s.id, kind, transformation, pattern),
{
    let mut s = match kind {
        ShapeKind::Sphere => Sphere::new(),
        ShapeKind::Plane => Plane::new(),
    };
    s.transformation = transformation;
    s.material.pattern = pattern;
    s
}

/// Stripes of two plain colors.
pub open spec fn spec_stripes(a: Color, b: Color, transformation: Matrix) -> Pattern {
    Pattern {
        transformation,
        ..Stripe::spec_new(Box::new(Solid::spec_new(a)), Box::new(Solid::spec_new(b)))
    }
}

fn stripes(a: Color, b: Color, transformation: Matrix) -> (p: Pattern)
    ensures
        p == spec_stripes(a, b, transformation),
{
    let mut p = Stripe::new(Box::new(Solid::new(a)), Box::new(Solid::new(b)));
    p.set_transformation(transformation);
    p
}

pub open spec fn spec_third() -> Scalar {
    Scalar::spec_from_ratio(33, 100)
}

pub open spec fn spec_fifth() -> Scalar {
    Scalar::spec_from_ratio(2, 10)
}

pub open spec fn spec_half() -> Scalar {
    Scalar::spec_from_ratio(1, 2)
}

pub open spec fn spec_quarter_turn() -> Scalar {
    Scalar::pi().div(Scalar::spec_from_int(4))
}

pub open spec fn spec_light_green() -> Color {
    Color(
        Scalar::spec_from_ratio(56, 100),
        Scalar::spec_from_ratio(93, 100),
        Scalar::spec_from_ratio(56, 100),
    )
}

fn light_green() -> (c: Color)
    ensures
        c == spec_light_green(),
{
    Color(Scalar::from_ratio(56, 100), Scalar::from_ratio(93, 100), Scalar::from_ratio(56, 100))
}

/// The checked floor of the first picture.
pub open spec fn spec_page_floor(id: u128) -> Shape {
    spec_patterned(
        id,
        ShapeKind::Plane,
        Matrix::identity(),
        Checker::spec_new(
            Box::new(Solid::spec_new(Color::white())),
            Box::new(Solid::spec_new(Color::black())),
        ),
    )
}

/// The striped wall of the first picture.
pub open spec fn spec_page_wall(id: u128) -> Shape {
    spec_patterned(
        id,
        ShapeKind::Plane,
        translation(Scalar::zero(), Scalar::zero(), Scalar::spec_from_int(3)).spec_mul(
            rotation_z(spec_quarter_turn()),
        ).spec_mul(scaling(spec_half(), spec_half(), spec_half())).spec_mul(
            rotation_x(Scalar::pi().div(Scalar::spec_from_int(2))),
        ),
        spec_stripes(Color::white(), Color::black(), Matrix::identity()),
    )
}

/// The pattern of the large sphere of the first picture: rings of two
/// greens, squeezed along x and stretched along z.
pub open spec fn spec_page_rings() -> Pattern {
    Pattern {
        transformation: scaling(spec_fifth(), Scalar::one(), Scalar::spec_from_ratio(3, 2)),
        ..Ring::spec_new(
            Box::new(Solid::spec_new(spec_light_green())),
            Box::new(
                Solid::spec_new(
                    Color(Scalar::zero(), spec_fifth(), Scalar::spec_from_ratio(13, 100)),
                ),
            ),
        )
    }
}

/// The large sphere of the first picture.
pub open spec fn spec_page_big_sphere(id: u128) -> Shape {
    spec_patterned(
        id,
        ShapeKind::Sphere,
        translation(spec_half().neg(), Scalar::one(), Scalar::zero()).spec_mul(
            rotation_z(spec_quarter_turn().neg()),
        ).spec_mul(rotation_y(Scalar::pi().div(Scalar::spec_from_int(3)))),
        spec_page_rings(),
    )
}

/// The pattern of the small sphere of the first picture: from red to
/// green, twice as wide and moved by one.
pub open spec fn spec_page_fade() -> Pattern {
    Pattern {
        transformation: translation(Scalar::one(), Scalar::zero(), Scalar::zero()).spec_mul(
            scaling(Scalar::spec_from_int(2), Scalar::spec_from_int(2), Scalar::spec_from_int(2)),
        ),
        ..Gradient::spec_new(
            Color(Scalar::one(), Scalar::zero(), Scalar::zero()),
            Color(Scalar::zero(), Scalar::one(), Scalar::zero()),
        )
    }
}

/// The small sphere of the first picture.
pub open spec fn spec_page_small_sphere(id: u128) -> Shape {
    spec_patterned(
        id,
        ShapeKind::Sphere,
        scaling(spec_third(), spec_third(), spec_third()).spec_mul(
            translation(Scalar::spec_from_int(5), Scalar::one(), Scalar::spec_from_int(2).neg()),
        ).spec_mul(rotation_y(spec_quarter_turn().neg())).spec_mul(rotation_z(spec_quarter_turn())),
        spec_page_fade(),
    )
}

/// The light of the first picture: as the scenes' light, half as bright.
pub open spec fn spec_page_light() -> PointLight {
    PointLight { intensity: Color(spec_half(), spec_half(), spec_half()), ..spec_scene_light() }
}

/// Whether a world is the one of the first picture: a checked floor, a
/// striped wall, a ringed and a fading sphere under a grey light.
pub open spec fn is_first_page(world: &World) -> bool {
    &&& world.light == spec_page_light()
    &&& world.objects@.len() == 4
    &&& world.objects[0] == spec_page_floor(world.objects[0].id)
    &&& world.objects[1] == spec_page_wall(world.objects[1].id)
    &&& world.objects[2] == spec_page_big_sphere(world.objects[2].id)
    &&& world.objects[3] == spec_page_small_sphere(world.objects[3].id)
}

/// Whether a world is one plane with a pattern, under the scenes' light.
pub open spec fn is_floor_scene(world: &World, pattern: Pattern) -> bool {
    &&& world.light == spec_scene_light()
    &&& world.objects@.len() == 1
    &&& world.objects[0] == spec_patterned(
        world.objects[0].id,
        ShapeKind::Plane,
        Matrix::identity(),
        pattern,
    )
}

/// Whether a canvas is the picture, 150 by 75, of a floor with a pattern.
pub open spec fn is_floor_picture(pattern: Pattern, image: &Canvas) -> bool {
    exists|world: World|
        is_floor_scene(&world, pattern) && world.valid() && spec_scene_camera(150, 75).valid()
            && spec_scene_camera(150, 75).is_picture(&world, image)
}

fn floor_picture(pattern: Pattern) -> (image: Canvas)
    requires
        pattern.valid(),
    ensures
        is_floor_picture(pattern, &image),
{
    let mut objects: Vec<Shape> = Vec::new();
    objects.push(patterned(ShapeKind::Plane, Matrix::identity(), pattern));
    let world = World { objects, light: scene_light() };
    let ghost seen = world;
    assert(is_floor_scene(&seen, pattern));
    proof {
        lemma_floor_scene_is_valid(&seen, pattern);
        lemma_scene_camera_is_valid(150, 75);
    }
    let camera = scene_camera(150, 75);
    let image = camera.render(world);
    assert(spec_scene_camera(150, 75).is_picture(&seen, &image));
    image
}

/// The picture, 150 by 75, of a checked floor, a striped wall, a ringed
/// sphere and a fading one.
pub fn draw_chapter_10_first_page() -> (image: Canvas)
    ensures
        exists|world: World|
            is_first_page(&world) && world.valid() && spec_scene_camera(150, 75).valid()
                && spec_scene_camera(150, 75).is_picture(&world, &image),
{
    let half = Scalar::from_ratio(1, 2);
    let third = Scalar::from_ratio(33, 100);
    let fifth = Scalar::from_ratio(2, 10);
    let quarter_turn = Scalar::pi().div(Scalar::from_int(4));
    let floor = patterned(
        ShapeKind::Plane,
        Matrix::identity(),
        Checker::new(Box::new(Solid::new(Color::white())), Box::new(Solid::new(Color::black()))),
    );
    let wall = patterned(
        ShapeKind::Plane,
        translation(Scalar::zero(), Scalar::zero(), Scalar::from_int(3)).mul(
            rotation_z(quarter_turn),
        ).mul(scaling(half, half, half)).mul(rotation_x(Scalar::pi().div(Scalar::from_int(2)))),
        stripes(Color::white(), Color::black(), Matrix::identity()),
    );
    let mut rings = Ring::new(
        Box::new(Solid::new(light_green())),
        Box::new(Solid::new(Color(Scalar::zero(), fifth, Scalar::from_ratio(13, 100)))),
    );
    rings.set_transformation(scaling(fifth, Scalar::one(), Scalar::from_ratio(3, 2)));
    let big_sphere = patterned(
        ShapeKind::Sphere,
        translation(half.neg(), Scalar::one(), Scalar::zero()).mul(
            rotation_z(quarter_turn.neg()),
        ).mul(rotation_y(Scalar::pi().div(Scalar::from_int(3)))),
        rings,
    );
    let mut fade = Gradient::new(
        Color(Scalar::one(), Scalar::zero(), Scalar::zero()),
        Color(Scalar::zero(), Scalar::one(), Scalar::zero()),
    );
    fade.set_transformation(
        translation(Scalar::one(), Scalar::zero(), Scalar::zero()).mul(
            scaling(Scalar::from_int(2), Scalar::from_int(2), Scalar::from_int(2)),
        ),
    );
    let small_sphere = patterned(
        ShapeKind::Sphere,
        scaling(third, third, third).mul(
            translation(Scalar::from_int(5), Scalar::one(), Scalar::from_int(2).neg()),
        ).mul(rotation_y(quarter_turn.neg())).mul(rotation_z(quarter_turn)),
        fade,
    );
    let mut objects: Vec<Shape> = Vec::new();
    objects.push(floor);
    objects.push(wall);
    objects.push(big_sphere);
    objects.push(small_sphere);
    let mut light = scene_light();
    light.intensity = Color(half, half, half);
    let world = World { objects, light };
    let ghost seen = world;
    assert(is_first_page(&seen));
    proof {
        lemma_first_page_is_valid(&seen);
        lemma_scene_camera_is_valid(150, 75);
    }
    let camera = scene_camera(150, 75);
    let image = camera.render(world);
    assert(spec_scene_camera(150, 75).is_picture(&seen, &image));
    image
}

/// The pattern that fades from white to black away from the y axis.
pub open spec fn spec_radial_fade() -> Pattern {
    RadialGradient::spec_new(Color::white(), Color::black())
}

/// The picture, 150 by 75, of a floor that fades outward.
pub fn radial_gradient_floor() -> (image: Canvas)
    ensures
        is_floor_picture(spec_radial_fade(), &image),
{
    proof {
        lemma_radial_fade_is_valid();
    }
    floor_picture(RadialGradient::new(Color::white(), Color::black()))
}

/// The pattern of checks whose cubes are themselves striped: pink stripes
/// turned one way and grey ones turned the other, both a fifth as wide.
pub open spec fn spec_nested_checks() -> Pattern {
    let small = scaling(spec_fifth(), spec_fifth(), spec_fifth());
    Checker::spec_new(
        Box::new(
            spec_stripes(
                Color(
                    Scalar::one(),
                    Scalar::spec_from_ratio(753, 1000),
                    Scalar::spec_from_ratio(796, 1000),
                ),
                Color(Scalar::one(), Scalar::zero(), Scalar::one()),
                small.spec_mul(rotation_y(spec_quarter_turn())),
            ),
        ),
        Box::new(
            spec_stripes(
                Color(
                    Scalar::spec_from_ratio(6, 10),
                    Scalar::spec_from_ratio(6, 10),
                    Scalar::spec_from_ratio(6, 10),
                ),
                Color(
                    Scalar::spec_from_ratio(3, 10),
                    Scalar::spec_from_ratio(3, 10),
                    Scalar::spec_from_ratio(3, 10),
                ),
                small.spec_mul(rotation_y(spec_quarter_turn().neg())),
            ),
        ),
    )
}

/// The picture, 150 by 75, of a floor of striped checks.
pub fn nested_pattern_floor() -> (image: Canvas)
    ensures
        is_floor_picture(spec_nested_checks(), &image),
{
    proof {
        lemma_nested_checks_is_valid();
    }
    let fifth = Scalar::from_ratio(2, 10);
    let quarter_turn = Scalar::pi().div(Scalar::from_int(4));
    let stripe_a = stripes(
        Color(Scalar::one(), Scalar::from_ratio(753, 1000), Scalar::from_ratio(796, 1000)),
        Color(Scalar::one(), Scalar::zero(), Scalar::one()),
        scaling(fifth, fifth, fifth).mul(rotation_y(quarter_turn)),
    );
    let stripe_b = stripes(
        Color(Scalar::from_ratio(6, 10), Scalar::from_ratio(6, 10), Scalar::from_ratio(6, 10)),
        Color(Scalar::from_ratio(3, 10), Scalar::from_ratio(3, 10), Scalar::from_ratio(3, 10)),
        scaling(fifth, fifth, fifth).mul(rotation_y(quarter_turn.neg())),
    );
    floor_picture(Checker::new(Box::new(stripe_a), Box::new(stripe_b)))
}

/// The pattern of green and white stripes laid over themselves crosswise.
pub open spec fn spec_crossed_stripes() -> Pattern {
    Blended::spec_new(
        Box::new(spec_stripes(spec_light_green(), Color::white(), rotation_y(spec_quarter_turn()))),
        Box::new(
            spec_stripes(spec_light_green(), Color::white(), rotation_y(spec_quarter_turn().neg())),
        ),
    )
}

/// The picture, 150 by 75, of a floor of crossed stripes.
pub fn blended_pattern_floor() -> (image: Canvas)
    ensures
        is_floor_picture(spec_crossed_stripes(), &image),
{
    proof {
        lemma_crossed_stripes_is_valid();
    }
    let quarter_turn = Scalar::pi().div(Scalar::from_int(4));
    let stripe = stripes(light_green(), Color::white(), Matrix::identity());
    let mut stripe_a = stripe.clone();
    stripe_a.set_transformation(rotation_y(quarter_turn));
    let mut stripe_b = stripe;
    stripe_b.set_transformation(rotation_y(quarter_turn.neg()));
    floor_picture(Blended::new(Box::new(stripe_a), Box::new(stripe_b)))
}

} // verus!
