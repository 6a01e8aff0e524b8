use raytracer::color::Color;
use raytracer::matrices::Matrix;
use raytracer::patterns::{
    Blended, Checker, Gradient, Pattern, PatternKind, RadialGradient, Ring, Solid, Stripe,
};
use raytracer::scalar::Scalar;
use raytracer::shapes::Sphere;
use raytracer::transformation::{scaling, translation};
use raytracer::tuples::Point;

fn s(x: f64) -> Scalar {
    Scalar { raw: (x * 4294967296.0).round() as i64 }
}

fn c(r: f64, g: f64, b: f64) -> Color {
    Color(s(r), s(g), s(b))
}

fn p(x: f64, y: f64, z: f64) -> Point {
    Point::new(s(x), s(y), s(z))
}

fn white_and_black_stripes() -> Pattern {
    Stripe::new(Box::new(Solid::new(Color::white())), Box::new(Solid::new(Color::black())))
}

#[test]
fn default_pattern_transformation() {
    let pattern = white_and_black_stripes();
    assert_eq!(pattern.transformation, Matrix::identity());
    assert_eq!(pattern.transformation(), Matrix::identity());
}

#[test]
fn patterns_assigning_transformation() {
    let mut pattern = white_and_black_stripes();
    pattern.set_transformation(translation(s(1.0), s(2.0), s(3.0)));
    assert_eq!(pattern.transformation, translation(s(1.0), s(2.0), s(3.0)));
}

#[test]
fn same_color_everywhere() {
    let solid = Solid::new(Color::white());

    assert_eq!(solid.at(Point::origin()), Color::white());
    assert_eq!(solid.at(p(0.25, 0.0, 0.0)), Color::white());
    assert_eq!(solid.at(p(0.5, 0.0, 0.0)), Color::white());
    assert_eq!(solid.at(p(0.75, 0.0, 0.0)), Color::white());
}

#[test]
fn creating_stripe_pattern() {
    let stripe = white_and_black_stripes();

    match &stripe.kind {
        PatternKind::Stripe(a, b) => {
            assert!(a.equals(&Solid::new(Color::white())));
            assert!(b.equals(&Solid::new(Color::black())));
        }
        _ => panic!("not a stripe"),
    }
}

#[test]
fn stripe_is_constant_in_y() {
    let stripe = white_and_black_stripes();

    assert_eq!(stripe.at(Point::origin()), Color::white());
    assert_eq!(stripe.at(p(0.0, 1.0, 0.0)), Color::white());
    assert_eq!(stripe.at(p(0.0, 2.0, 0.0)), Color::white());
}

#[test]
fn stripe_is_constant_in_z() {
    let stripe = white_and_black_stripes();

    assert_eq!(stripe.at(Point::origin()), Color::white());
    assert_eq!(stripe.at(p(0.0, 0.0, 1.0)), Color::white());
    assert_eq!(stripe.at(p(0.0, 0.0, 2.0)), Color::white());
}

#[test]
fn stripe_alternates_in_x() {
    let stripe = white_and_black_stripes();

    assert_eq!(stripe.at(Point::origin()), Color::white());
    assert_eq!(stripe.at(p(0.9, 0.0, 0.0)), Color::white());
    assert_eq!(stripe.at(p(1.0, 0.0, 0.0)), Color::black());
    assert_eq!(stripe.at(p(-0.1, 0.0, 0.0)), Color::black());
    assert_eq!(stripe.at(p(-1.0, 0.0, 0.0)), Color::black());
    assert_eq!(stripe.at(p(-1.1, 0.0, 0.0)), Color::white());
}

#[test]
fn stripes_with_object_transformation() {
    let mut object = Sphere::new();
    object.set_transformation(scaling(s(2.0), s(2.0), s(2.0)));
    let stripe = white_and_black_stripes();

    let color = stripe.at_object(&object, p(1.5, 0.0, 0.0));

    assert_eq!(color, Color::white());
}

#[test]
fn stripes_with_pattern_transformation() {
    let object = Sphere::new();
    let mut stripe = white_and_black_stripes();
    stripe.set_transformation(scaling(s(2.0), s(2.0), s(2.0)));

    let color = stripe.at_object(&object, p(1.5, 0.0, 0.0));

    assert_eq!(color, Color::white());
}

#[test]
fn stripes_with_both_object_and_pattern_transformation() {
    let mut object = Sphere::new();
    object.set_transformation(scaling(s(2.0), s(2.0), s(2.0)));

    let mut stripe = white_and_black_stripes();
    stripe.set_transformation(translation(s(0.5), s(0.0), s(0.0)));

    let color = stripe.at_object(&object, p(2.5, 0.0, 0.0));

    assert_eq!(color, Color::white());
}

#[test]
fn checker_should_repeat_in_x() {
    let checker =
        Checker::new(Box::new(Solid::new(Color::white())), Box::new(Solid::new(Color::black())));

    assert_eq!(checker.at(Point::origin()), Color::white());
    assert_eq!(checker.at(p(0.99, 0.0, 0.0)), Color::white());
    assert_eq!(checker.at(p(1.01, 0.0, 0.0)), Color::black());
}

#[test]
fn checker_should_repeat_in_y() {
    let checker =
        Checker::new(Box::new(Solid::new(Color::white())), Box::new(Solid::new(Color::black())));

    assert_eq!(checker.at(Point::origin()), Color::white());
    assert_eq!(checker.at(p(0.0, 0.99, 0.0)), Color::white());
    assert_eq!(checker.at(p(0.0, 1.01, 0.0)), Color::black());
}

#[test]
fn checker_should_repeat_in_z() {
    let checker =
        Checker::new(Box::new(Solid::new(Color::white())), Box::new(Solid::new(Color::black())));

    assert_eq!(checker.at(Point::origin()), Color::white());
    assert_eq!(checker.at(p(0.0, 0.0, 0.99)), Color::white());
    assert_eq!(checker.at(p(0.0, 0.0, 1.01)), Color::black());
}

#[test]
fn checker_takes_the_plain_floors_of_the_coordinates() {
    let checker =
        Checker::new(Box::new(Solid::new(Color::white())), Box::new(Solid::new(Color::black())));

    // just under zero the floor is -1, so the sum is odd
    assert_eq!(checker.at(p(-0.000001, 0.0, 0.0)), Color::black());
    assert_eq!(checker.at(p(0.0, -0.000001, 0.0)), Color::black());
    assert_eq!(checker.at(p(0.0, 0.0, -0.000001)), Color::black());
    assert_eq!(checker.at(p(-0.000001, -0.000001, 0.0)), Color::white());
    assert_eq!(checker.at(p(0.000001, 0.0, 0.0)), Color::white());
    assert_eq!(checker.at(p(-1.0, 0.0, 0.0)), Color::black());
    assert_eq!(checker.at(p(-1.5, 0.5, 2.5)), Color::white());
    assert_eq!(checker.at(p(1.0, 1.0, 1.0)), Color::black());
}

#[test]
fn gradient_linearly_interpolates_between_colors() {
    let gradient = Gradient::new(Color::white(), Color::black());

    assert_eq!(gradient.at(Point::origin()), Color::white());
    assert_eq!(gradient.at(p(0.25, 0.0, 0.0)), c(0.75, 0.75, 0.75));
    assert_eq!(gradient.at(p(0.5, 0.0, 0.0)), c(0.5, 0.5, 0.5));
    assert_eq!(gradient.at(p(0.75, 0.0, 0.0)), c(0.25, 0.25, 0.25));
}

#[test]
fn ring_extends_in_both_x_and_z() {
    let ring =
        Ring::new(Box::new(Solid::new(Color::white())), Box::new(Solid::new(Color::black())));

    assert_eq!(ring.at(Point::origin()), Color::white());
    assert_eq!(ring.at(p(1.0, 0.0, 0.0)), Color::black());
    assert_eq!(ring.at(p(0.0, 0.0, 1.0)), Color::black());
    assert_eq!(ring.at(p(0.708, 0.0, 0.708)), Color::black());
}

#[test]
fn radial_gradient_fades_with_the_distance_from_the_axis() {
    let fade = RadialGradient::new(Color::white(), Color::black());

    assert_eq!(fade.at(Point::origin()), Color::white());
    assert_eq!(fade.at(p(0.25, 5.0, 0.0)), c(0.75, 0.75, 0.75));
    assert_eq!(fade.at(p(0.0, 0.0, 0.5)), c(0.5, 0.5, 0.5));
    assert_eq!(fade.at(p(0.3, 0.0, 0.4)), c(0.5, 0.5, 0.5));
    assert_eq!(fade.at(p(1.5, 0.0, 2.0)), c(0.5, 0.5, 0.5));
}

#[test]
fn blended_pattern_multiplies_its_parts() {
    let blend = Blended::new(
        Box::new(Solid::new(c(1.0, 0.2, 0.4))),
        Box::new(Gradient::new(c(0.9, 1.0, 0.1), c(0.9, 1.0, 0.1))),
    );

    assert_eq!(blend.at(p(0.3, 0.0, 0.0)), c(0.9, 0.2, 0.04));
}

#[test]
fn nested_pattern_is_asked_through_its_own_transformation() {
    let mut inner = white_and_black_stripes();
    inner.set_transformation(scaling(s(0.25), s(0.25), s(0.25)));
    let outer = Stripe::new(Box::new(inner), Box::new(Solid::new(c(1.0, 0.0, 0.0))));

    assert_eq!(outer.at(p(0.1, 0.0, 0.0)), Color::white());
    assert_eq!(outer.at(p(0.3, 0.0, 0.0)), Color::black());
    assert_eq!(outer.at(p(0.6, 0.0, 0.0)), Color::white());
    assert_eq!(outer.at(p(1.3, 0.0, 0.0)), c(1.0, 0.0, 0.0));
}

#[test]
fn pattern_on_an_object_depends_on_the_object_only_by_its_transformation() {
    let mut first = Sphere::new();
    first.set_transformation(scaling(s(2.0), s(2.0), s(2.0)));
    let mut second = raytracer::shapes::Plane::new();
    second.set_transformation(scaling(s(2.0), s(2.0), s(2.0)));
    second.material.ambient = s(0.7);
    let mut stripe = white_and_black_stripes();
    stripe.set_transformation(translation(s(0.5), s(0.0), s(0.0)));

    for x in [-3.3, -1.0, 0.2, 1.5, 2.5, 3.1, 4.9] {
        let at_first = stripe.at_object(&first, p(x, 0.3, 0.1));
        let at_second = stripe.at_object(&second, p(x, 0.3, 0.1));
        let by_hand = stripe.at(
            stripe
                .transformation
                .inverse()
                .mul_point(first.transformation.inverse().mul_point(p(x, 0.3, 0.1))),
        );
        assert_eq!(at_first, at_second);
        assert_eq!(at_first, by_hand);
    }
}

#[test]
fn patterns_are_equal_by_kind_and_parts() {
    let stripe = white_and_black_stripes();
    let mut moved = white_and_black_stripes();
    moved.set_transformation(translation(s(1.0), s(0.0), s(0.0)));
    let ring =
        Ring::new(Box::new(Solid::new(Color::white())), Box::new(Solid::new(Color::black())));

    assert!(stripe.equals(&white_and_black_stripes()));
    assert!(stripe.equals(&stripe.clone()));
    assert!(!stripe.equals(&moved));
    assert!(!stripe.equals(&ring));
    assert!(!Solid::new(Color::white()).equals(&Solid::new(Color::black())));
    assert!(stripe.is_valid());
    moved.set_transformation(scaling(s(0.0), s(1.0), s(1.0)));
    assert!(!moved.is_valid());
    assert!(!Stripe::new(Box::new(moved), Box::new(Solid::new(Color::black()))).is_valid());
}
