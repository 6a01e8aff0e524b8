use vstd::prelude::*;
use crate::camera::Camera;
use crate::canvas::Canvas;
use crate::color::Color;
use crate::experiments::validity::{
    lemma_plane_scene_is_valid,
    lemma_room_is_valid,
    lemma_scene_camera_is_valid,
};
use crate::lights::PointLight;
use crate::materials::Material;
use crate::matrices::Matrix;
use crate::patterns::Solid;
use crate::scalar::Scalar;
use crate::shapes::{Plane, Shape, ShapeKind, Sphere};
use crate::transformation::{
    rotation_x,
    rotation_y,
    scaling,
    spec_view_transform,
    translation,
    view_transform,
};
use crate::tuples::{Point, Vector};
use crate::world::World;

verus! {

/// The light of the scenes: white, above and to the left of the eye.
pub open spec fn spec_scene_light() -> PointLight {
    PointLight::spec_new(
        Point::spec_new(
            Scalar::spec_from_int(10).neg(),
            Scalar::spec_from_int(10),
            Scalar::spec_from_int(10).neg(),
        ),
        Color::white(),
    )
}

pub fn scene_light() -> (l: PointLight)
    ensures
        l == spec_scene_light(),
{
    PointLight::new(
        Point::new(Scalar::from_int(10).neg(), Scalar::from_int(10), Scalar::from_int(10).neg()),
        Color::white(),
    )
}

/// The camera of the scenes: it takes in a third of a half turn, stands at
/// `(0, 1.5, -5)` and looks at `(0, 1, 0)`.
pub open spec fn spec_scene_camera(hsize: usize, vsize: usize) -> Camera {
    Camera {
        transform: spec_view_transform(
            Point::spec_new(
                Scalar::zero(),
                Scalar::spec_from_ratio(3, 2),
                Scalar::spec_from_int(5).neg(),
            ),
            Point::spec_new(Scalar::zero(), Scalar::one(), Scalar::zero()),
            Vector::spec_new(Scalar::zero(), Scalar::one(), Scalar::zero()),
        ),
        ..Camera::spec_new(hsize, vsize, Scalar::pi().div(Scalar::spec_from_int(3)))
    }
}

pub fn scene_camera(hsize: usize, vsize: usize) -> (c: Camera)
    ensures
        c == spec_scene_camera(hsize, vsize),
{
    let mut camera = Camera::new(hsize, vsize, Scalar::pi().div(Scalar::from_int(3)));
    camera.transform = view_transform(
        Point::new(Scalar::zero(), Scalar::from_ratio(3, 2), Scalar::from_int(5).neg()),
        Point::new(Scalar::zero(), Scalar::one(), Scalar::zero()),
        Vector::new(Scalar::zero(), Scalar::one(), Scalar::zero()),
    );
    camera
}

/// The material of the floor and the walls: matte, of color
/// `(1, 0.9, 0.9)`.
pub open spec fn spec_walls_material() -> Material {
    Material {
        pattern: Solid::spec_new(
            Color(Scalar::one(), Scalar::spec_from_ratio(9, 10), Scalar::spec_from_ratio(9, 10)),
        ),
        specular: Scalar::zero(),
        ..Material::spec_new()
    }
}

fn walls_material() -> (m: Material)
    ensures
        m == spec_walls_material(),
{
    let mut m = Material::new();
    m.pattern = Solid::new(
        Color(Scalar::one(), Scalar::from_ratio(9, 10), Scalar::from_ratio(9, 10)),
    );
    m.specular = Scalar::zero();
    m
}

/// The scaling that flattens a sphere into a floor or a wall.
pub open spec fn spec_flat() -> Matrix {
    scaling(Scalar::spec_from_int(10), Scalar::spec_from_ratio(1, 100), Scalar::spec_from_int(10))
}

fn flat() -> (m: Matrix)
    ensures
        m == spec_flat(),
        m.rows == 4,
        m.cols == 4,
{
    scaling(Scalar::from_int(10), Scalar::from_ratio(1, 100), Scalar::from_int(10))
}

/// The transformation of a wall: flattened, stood up, turned by `turn`
/// around the y axis and moved five units back.
pub open spec fn spec_wall_transformation(turn: Scalar) -> Matrix {
    translation(Scalar::zero(), Scalar::zero(), Scalar::spec_from_int(5)).spec_mul(
        rotation_y(turn),
    ).spec_mul(rotation_x(Scalar::pi().div(Scalar::spec_from_int(2)))).spec_mul(spec_flat())
}

fn wall_transformation(turn: Scalar) -> (m: Matrix)
    ensures
        m == spec_wall_transformation(turn),
{
    translation(Scalar::zero(), Scalar::zero(), Scalar::from_int(5)).mul(rotation_y(turn)).mul(
        rotation_x(Scalar::pi().div(Scalar::from_int(2))),
    ).mul(flat())
}

/// The floor: a flattened sphere with the walls' material.
pub open spec fn spec_floor(id: u128) -> Shape {
    Shape {
        transformation: spec_flat(),
        material: spec_walls_material(),
        ..Shape::spec_with_id(id, ShapeKind::Sphere)
    }
}

/// A wall: a flattened sphere with the walls' material, turned by `turn`.
pub open spec fn spec_wall(id: u128, turn: Scalar) -> Shape {
    Shape {
        transformation: spec_wall_transformation(turn),
        material: spec_walls_material(),
        ..Shape::spec_with_id(id, ShapeKind::Sphere)
    }
}

/// A ball: a sphere of one color with diffuse 0.7 and specular 0.3.
pub open spec fn spec_ball(id: u128, transformation: Matrix, color: Color) -> Shape {
    Shape {
        transformation,
        material: Material {
            pattern: Solid::spec_new(color),
            diffuse: Scalar::spec_from_ratio(7, 10),
            specular: Scalar::spec_from_ratio(3, 10),
            ..Material::spec_new()
        },
        ..Shape::spec_with_id(id, ShapeKind::Sphere)
    }
}

fn ball(transformation: Matrix, color: Color) -> (s: Shape)
    ensures
        s == spec_ball(s.id, transformation, color),
{
    let mut s = Sphere::new();
    s.transformation = transformation;
    s.material.pattern = Solid::new(color);
    s.material.diffuse = Scalar::from_ratio(7, 10);
    s.material.specular = Scalar::from_ratio(3, 10);
    s
}

/// The large green ball in the middle.
pub open spec fn spec_middle(id: u128) -> Shape {
    spec_ball(
        id,
        translation(Scalar::spec_from_ratio(1, 2).neg(), Scalar::one(), Scalar::spec_from_ratio(1, 2)),
        Color(Scalar::spec_from_ratio(1, 10), Scalar::one(), Scalar::spec_from_ratio(5, 10)),
    )
}

pub fn middle() -> (s: Shape)
    ensures
        s == spec_middle(s.id),
{
    ball(
        translation(Scalar::from_ratio(1, 2).neg(), Scalar::one(), Scalar::from_ratio(1, 2)),
        Color(Scalar::from_ratio(1, 10), Scalar::one(), Scalar::from_ratio(5, 10)),
    )
}

/// The smaller green ball on the right, half the size.
pub open spec fn spec_right(id: u128) -> Shape {
    spec_ball(
        id,
        translation(
            Scalar::spec_from_ratio(3, 2),
            Scalar::spec_from_ratio(1, 2),
            Scalar::spec_from_ratio(1, 2).neg(),
        ).spec_mul(
            scaling(
                Scalar::spec_from_ratio(1, 2),
                Scalar::spec_from_ratio(1, 2),
                Scalar::spec_from_ratio(1, 2),
            ),
        ),
        Color(Scalar::spec_from_ratio(5, 10), Scalar::one(), Scalar::spec_from_ratio(1, 10)),
    )
}

pub fn right() -> (s: Shape)
    ensures
        s == spec_right(s.id),
{
    ball(
        translation(
            Scalar::from_ratio(3, 2),
            Scalar::from_ratio(1, 2),
            Scalar::from_ratio(1, 2).neg(),
        ).mul(
            scaling(Scalar::from_ratio(1, 2), Scalar::from_ratio(1, 2), Scalar::from_ratio(1, 2)),
        ),
        Color(Scalar::from_ratio(5, 10), Scalar::one(), Scalar::from_ratio(1, 10)),
    )
}

/// The smallest ball on the left, a third of the size.
pub open spec fn spec_left(id: u128) -> Shape {
    spec_ball(
        id,
        translation(
            Scalar::spec_from_ratio(3, 2).neg(),
            Scalar::spec_from_ratio(33, 100),
            Scalar::spec_from_ratio(3, 4).neg(),
        ).spec_mul(
            scaling(
                Scalar::spec_from_ratio(33, 100),
                Scalar::spec_from_ratio(33, 100),
                Scalar::spec_from_ratio(33, 100),
            ),
        ),
        Color(Scalar::one(), Scalar::spec_from_ratio(8, 10), Scalar::spec_from_ratio(1, 10)),
    )
}

pub fn left() -> (s: Shape)
    ensures
        s == spec_left(s.id),
{
    ball(
        translation(
            Scalar::from_ratio(3, 2).neg(),
            Scalar::from_ratio(33, 100),
            Scalar::from_ratio(3, 4).neg(),
        ).mul(
            scaling(
                Scalar::from_ratio(33, 100),
                Scalar::from_ratio(33, 100),
                Scalar::from_ratio(33, 100),
            ),
        ),
        Color(Scalar::one(), Scalar::from_ratio(8, 10), Scalar::from_ratio(1, 10)),
    )
}

/// Whether a world is the room: a floor, a wall turned left and one turned
/// right, and the three balls, under the scenes' light.
pub open spec fn is_room(world: &World) -> bool {
    let quarter = Scalar::pi().div(Scalar::spec_from_int(4));
    &&& world.light == spec_scene_light()
    &&& world.objects@.len() == 6
    &&& world.objects[0] == spec_floor(world.objects[0].id)
    &&& world.objects[1] == spec_wall(world.objects[1].id, quarter.neg())
    &&& world.objects[2] == spec_wall(world.objects[2].id, quarter)
    &&& world.objects[3] == spec_middle(world.objects[3].id)
    &&& world.objects[4] == spec_right(world.objects[4].id)
    &&& world.objects[5] == spec_left(world.objects[5].id)
}

/// Whether a world is the three balls on a plane, under the scenes' light.
pub open spec fn is_plane_scene(world: &World) -> bool {
    &&& world.light == spec_scene_light()
    &&& world.objects@.len() == 4
    &&& world.objects[0] == Shape::spec_with_id(world.objects[0].id, ShapeKind::Plane)
    &&& world.objects[1] == spec_middle(world.objects[1].id)
    &&& world.objects[2] == spec_right(world.objects[2].id)
    &&& world.objects[3] == spec_left(world.objects[3].id)
}

/// The picture, 100 by 50, of three balls in a room whose floor and walls
/// are flattened spheres.
pub fn draw_scene() -> (image: Canvas)
    ensures
        exists|world: World|
            is_room(&world) && world.valid() && spec_scene_camera(100, 50).valid()
                && spec_scene_camera(100, 50).is_picture(&world, &image),
{
    let quarter = Scalar::pi().div(Scalar::from_int(4));
    let mut floor = Sphere::new();
    floor.transformation = flat();
    floor.material = walls_material();
    let mut left_wall = Sphere::new();
    left_wall.transformation = wall_transformation(quarter.neg());
    left_wall.material = walls_material();
    let mut right_wall = Sphere::new();
    right_wall.transformation = wall_transformation(quarter);
    right_wall.material = walls_material();
    let mut objects: Vec<Shape> = Vec::new();
    objects.push(floor);
    objects.push(left_wall);
    objects.push(right_wall);
    objects.push(middle());
    objects.push(right());
    objects.push(left());
    let world = World { objects, light: scene_light() };
    let ghost seen = world;
    assert(is_room(&seen));
    proof {
        lemma_room_is_valid(&seen);
        lemma_scene_camera_is_valid(100, 50);
    }
    let camera = scene_camera(100, 50);
    let image = camera.render(world);
    assert(spec_scene_camera(100, 50).is_picture(&seen, &image));
    image
}

/// The picture, 100 by 50, of the three balls on a plane.
pub fn draw_scene_with_plane() -> (image: Canvas)
    ensures
        exists|world: World|
            is_plane_scene(&world) && world.valid() && spec_scene_camera(100, 50).valid()
                && spec_scene_camera(100, 50).is_picture(&world, &image),
{
    let mut objects: Vec<Shape> = Vec::new();
    objects.push(Plane::new());
    objects.push(middle());
    objects.push(right());
    objects.push(left());
    let world = World { objects, light: scene_light() };
    let ghost seen = world;
    assert(is_plane_scene(&seen));
    proof {
        lemma_plane_scene_is_valid(&seen);
        lemma_scene_camera_is_valid(100, 50);
    }
    let camera = scene_camera(100, 50);
    let image = camera.render(world);
    assert(spec_scene_camera(100, 50).is_picture(&seen, &image));
    image
}

} // verus!
