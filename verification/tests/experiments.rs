use raytracer::canvas::Canvas;
use raytracer::color::Color;
use raytracer::experiments::circle::{draw_circle, silhouette, wall_ray};
use raytracer::experiments::clock::draw_clock;
use raytracer::experiments::projectile::{tick, tick_until_fallen, Environment, Projectile};
use raytracer::experiments::scene::{left, middle, right, scene_camera, scene_light};
use raytracer::experiments::sphere::lit_picture;
use raytracer::scalar::Scalar;
use raytracer::shapes::Sphere;
use raytracer::transformation::{scaling, translation};
use raytracer::tuples::{Point, Vector};

fn s(x: f64) -> Scalar {
    Scalar { raw: (x * 4294967296.0).round() as i64 }
}

fn c(r: f64, g: f64, b: f64) -> Color {
    Color(s(r), s(g), s(b))
}

fn p(x: f64, y: f64, z: f64) -> Point {
    Point::new(s(x), s(y), s(z))
}

fn v(x: f64, y: f64, z: f64) -> Vector {
    Vector::new(s(x), s(y), s(z))
}

fn whites(image: &Canvas) -> usize {
    let mut count = 0;
    for y in 0..image.height {
        for x in 0..image.width {
            if image.pixel_at(x, y) == Color::white() {
                count += 1;
            }
        }
    }
    count
}

#[test]
fn circle_is_red_in_the_middle_and_black_in_the_corners() {
    let image = draw_circle();

    assert_eq!(image.width, 100);
    assert_eq!(image.height, 100);
    assert_eq!(image.pixel_at(50, 50), c(1.0, 0.0, 0.0));
    assert_eq!(image.pixel_at(0, 0), Color::black());
    assert_eq!(image.pixel_at(99, 99), Color::black());
    // the shadow of the unit sphere on the wall has a radius of 3.06 units: 43.7 pixels
    assert_eq!(image.pixel_at(50 + 42, 50), c(1.0, 0.0, 0.0));
    assert_eq!(image.pixel_at(50 + 44, 50), Color::black());
    assert_eq!(image.pixel_at(50, 50 - 42), c(1.0, 0.0, 0.0));
    assert_eq!(image.pixel_at(50, 50 - 44), Color::black());
}

#[test]
fn wall_rays_start_at_the_eye() {
    let r = wall_ray(100, 50, 50);

    assert_eq!(r.origin, p(0.0, 0.0, -5.0));
    assert_eq!(r.direction, v(0.0, 0.0, 1.0));
    assert_eq!(wall_ray(100, 0, 0).direction, v(-3.5, 3.5, 15.0).normalize());
}

#[test]
fn silhouette_follows_the_shape() {
    let mut small = Sphere::new();
    small.set_transformation(scaling(s(0.5), s(0.5), s(0.5)));
    let image = silhouette(&small);

    assert_eq!(image.pixel_at(50, 50), c(1.0, 0.0, 0.0));
    assert_eq!(image.pixel_at(50 + 20, 50), c(1.0, 0.0, 0.0));
    assert_eq!(image.pixel_at(50 + 23, 50), Color::black());

    let mut away = Sphere::new();
    away.set_transformation(translation(s(0.0), s(0.0), s(-20.0)));
    assert_eq!(silhouette(&away).pixel_at(50, 50), Color::black());
}

#[test]
fn lit_sphere_is_brightest_toward_the_light() {
    let mut sphere = Sphere::new();
    sphere.material.pattern = raytracer::patterns::Solid::new(c(1.0, 0.2, 1.0));
    let image = lit_picture(&sphere, &scene_light());

    assert_eq!(image.width, 500);
    assert_eq!(image.pixel_at(0, 0), Color::black());
    let toward = image.pixel_at(200, 200);
    let away = image.pixel_at(300, 300);
    assert!(away.0.lt(toward.0));
    assert!(away.1.lt(toward.1));
    assert!(s(0.1).le(away.0));
    assert!(s(0.02).le(away.1));
    assert_eq!(away.0, away.2);
}

#[test]
fn clock_has_twelve_hours() {
    let image = draw_clock();

    assert_eq!(image.width, 100);
    assert_eq!(image.height, 100);
    assert_eq!(whites(&image), 12);
    assert_eq!(image.pixel_at(87, 50), Color::white());
    assert_eq!(image.pixel_at(50, 50), Color::black());
    // six o'clock lies across the middle from twelve, within a pixel
    let six = (49..=50).filter(|y| image.pixel_at(12, *y) == Color::white()).count();
    assert_eq!(six, 1);
    let three = (49..=50).filter(|x| image.pixel_at(*x, 12) == Color::white()).count();
    let nine = (49..=50).filter(|x| image.pixel_at(*x, 87) == Color::white()).count();
    assert_eq!(three + nine, 2);
}

#[test]
fn projectile_ticks_by_velocity_gravity_and_wind() {
    let env = Environment { gravity: v(0.0, -0.5, 0.0), wind: v(-0.25, 0.0, 0.0) };
    let mut proj = Projectile { position: p(0.0, 1.0, 0.0), velocity: v(1.0, 1.0, 0.0) };

    tick(&env, &mut proj);

    assert_eq!(proj.position, p(1.0, 2.0, 0.0));
    assert_eq!(proj.velocity, v(0.75, 0.5, 0.0));
}

#[test]
fn projectile_flies_until_it_has_fallen() {
    let env = Environment { gravity: v(0.0, -1.0, 0.0), wind: v(0.0, 0.0, 0.0) };
    let mut proj = Projectile { position: p(0.0, 1.0, 0.0), velocity: v(1.0, 2.0, 0.0) };
    let mut canvas = Canvas::new(10, 5);

    let ticks = tick_until_fallen(&mut canvas, &env, &mut proj);

    // heights after each tick: 3, 4, 4, 3, 1, -2
    assert_eq!(ticks, 6);
    assert_eq!(proj.position, p(6.0, -2.0, 0.0));
    assert_eq!(whites(&canvas), 5);
    assert_eq!(canvas.pixel_at(1, 2), Color::white());
    assert_eq!(canvas.pixel_at(2, 1), Color::white());
    assert_eq!(canvas.pixel_at(3, 1), Color::white());
    assert_eq!(canvas.pixel_at(4, 2), Color::white());
    assert_eq!(canvas.pixel_at(5, 4), Color::white());
}

#[test]
fn projectile_on_the_ground_does_not_fly() {
    let env = Environment { gravity: v(0.0, -1.0, 0.0), wind: v(0.0, 0.0, 0.0) };
    let mut proj = Projectile { position: p(3.0, 0.0, 0.0), velocity: v(1.0, 2.0, 0.0) };
    let mut canvas = Canvas::new(10, 5);

    assert_eq!(tick_until_fallen(&mut canvas, &env, &mut proj), 0);
    assert_eq!(whites(&canvas), 0);
    assert_eq!(proj.position, p(3.0, 0.0, 0.0));
}

#[test]
fn scene_parts_are_where_they_belong() {
    assert_eq!(middle().transformation, translation(s(-0.5), s(1.0), s(0.5)));
    assert_eq!(
        right().transformation,
        translation(s(1.5), s(0.5), s(-0.5)).mul(scaling(s(0.5), s(0.5), s(0.5)))
    );
    assert_eq!(left().material.pattern.at(Point::origin()), c(1.0, 0.8, 0.1));
    assert_eq!(left().material.diffuse, s(0.7));
    assert_eq!(left().material.specular, s(0.3));
    assert_eq!(scene_light().position, p(-10.0, 10.0, -10.0));
    let camera = scene_camera(100, 50);
    assert_eq!(camera.hsize, 100);
    assert_eq!(camera.vsize, 50);
    assert!(camera.is_valid());
    assert_eq!(camera.ray_for_pixel(s(50.0), s(25.0)).origin, p(0.0, 1.5, -5.0));
}

#[test]
fn radial_floor_is_drawn_below_the_horizon() {
    let image = raytracer::experiments::pattern::radial_gradient_floor();

    assert_eq!(image.width, 150);
    assert_eq!(image.height, 75);
    assert_eq!(image.pixel_at(0, 0), Color::black());
    assert_eq!(image.pixel_at(149, 0), Color::black());
    let lit = (0..150).filter(|x| image.pixel_at(*x, 74) != Color::black()).count();
    assert!(lit > 0);
}

#[test]
fn scenes_are_valid_as_they_are_made() {
    assert!(scene_camera(150, 75).is_valid());
    assert!(middle().is_valid());
    assert!(right().is_valid());
    assert!(left().is_valid());
    let inverse = scene_camera(100, 50).transform.inverse();
    assert_eq!(inverse.row(3).0, s(0.0));
    assert_eq!(inverse.row(3).1, s(0.0));
    assert_eq!(inverse.row(3).2, s(0.0));
    assert_eq!(inverse.row(3).3, s(1.0));
    assert_eq!(scene_camera(100, 50).transform.determinant().raw, 4252442863);
}
