use raytracer::matrices::Matrix;
use raytracer::rays::Ray;
use raytracer::scalar::Scalar;
use raytracer::shapes::Sphere;
use raytracer::transformation::{rotation_x, rotation_y, scaling, shearing, translation};
use raytracer::tuples::{Point, Vector};

fn s(x: f64) -> Scalar {
    Scalar { raw: (x * 4294967296.0).round() as i64 }
}

fn p(x: f64, y: f64, z: f64) -> Point {
    Point::new(s(x), s(y), s(z))
}

fn v(x: f64, y: f64, z: f64) -> Vector {
    Vector::new(s(x), s(y), s(z))
}

fn steps_from_one(x: Scalar) -> i64 {
    x.raw - (1i64 << 32)
}

#[test]
fn normalized_vectors_are_within_the_slack_of_length_one() {
    let vectors = [
        v(1.0, 2.0, 3.0),
        v(-0.05, 0.03, 0.02),
        v(16384.0, -16384.0, 16384.0),
        v(0.0, 0.0625, 0.0),
        v(-7.25, 0.001, 1234.5),
        v(0.3, -0.4, 0.0),
    ];

    for u in vectors {
        let unit = u.normalize();
        let off = steps_from_one(unit.magnitude());
        assert!(-8 <= off && off <= 4096);
        assert!(unit.magnitude().approx_eq(s(1.0)));
        assert_eq!(unit.3, s(0.0));
    }
}

#[test]
fn very_short_vectors_are_not_brought_to_length_one() {
    let unit = v(0.00001, 0.0, 0.00001).normalize();

    assert!(!unit.magnitude().approx_eq(s(1.0)));
}

#[test]
fn normals_of_transformed_spheres_have_length_one() {
    let mut sphere = Sphere::new();
    sphere.set_transformation(
        translation(s(1.0), s(-2.0), s(0.5))
            .mul(rotation_y(s(0.4)))
            .mul(scaling(s(2.0), s(0.5), s(1.5))),
    );

    for local in [v(1.0, 0.0, 0.0), v(0.0, -1.0, 0.0), v(0.6, 0.0, 0.8), v(-0.48, 0.6, 0.64)] {
        let on_surface =
            sphere.transformation.mul_point(Point::new(local.0, local.1, local.2));
        let n = sphere.normal_at(on_surface);
        assert!(n.magnitude().sub(s(1.0)).abs().lt(Scalar::epsilon()));
        assert_eq!(n.3, s(0.0));
    }
}

#[test]
fn mirrored_vectors_keep_their_length() {
    let normals = [v(0.0, 1.0, 0.0), v(1.0, 2.0, 2.0).normalize(), v(-3.0, 0.5, 7.0).normalize()];
    let vectors =
        [v(0.6, -0.3, 0.2), v(1.0, 1.0, 1.0), v(0.0, -0.0625, 0.0), v(-0.5, 0.25, -0.125)];

    for n in normals {
        for u in vectors {
            let mirrored = u.reflect(n);
            assert!((mirrored.magnitude().raw - u.magnitude().raw).abs() <= 42949);
            assert!(mirrored.magnitude().approx_eq(u.magnitude()));
            assert_eq!(mirrored.3, s(0.0));
        }
    }
}

#[test]
fn points_on_a_transformed_ray_follow_the_matrix() {
    let rays = [
        Ray::new(p(1.0, 2.0, 3.0), v(0.0, 1.0, 0.5)),
        Ray::new(p(-64.0, 64.0, 0.25), v(64.0, -1.0, 0.001)),
        Ray::new(p(0.0, 0.0, -5.0), v(0.0, 0.0, 1.0)),
    ];
    let matrices = [
        translation(s(3.0), s(4.0), s(5.0)).mul(scaling(s(2.0), s(3.0), s(4.0))),
        rotation_x(s(1.1)).mul(shearing(s(1.0), s(0.5), s(0.0), s(-2.0), s(0.0), s(3.0))),
        scaling(s(1024.0), s(-1024.0), s(0.001)),
        Matrix::identity(),
    ];

    for r in rays {
        for m in matrices {
            for t in [0.0, 2.5, -7.0, 1024.0] {
                let along = r.transform(m).position(s(t));
                let moved = m.mul_point(r.position(s(t)));
                assert_eq!(along, moved);
                assert!((along.0.raw - moved.0.raw).abs() <= 8200);
                assert!((along.1.raw - moved.1.raw).abs() <= 8200);
                assert!((along.2.raw - moved.2.raw).abs() <= 8200);
                assert_eq!(along.3, moved.3);
            }
        }
    }
}

#[test]
fn inverse_of_a_matrix_with_a_tiny_determinant_is_coarse() {
    let fine = scaling(s(0.25), s(4.0), s(0.5));
    assert_eq!(fine.mul(fine.inverse()), Matrix::identity());

    let tiny = scaling(s(0.001), s(0.001), s(0.001));
    assert!(tiny.is_transformation());
    assert_eq!(tiny.determinant().raw, 4);
    assert_ne!(tiny.mul(tiny.inverse()), Matrix::identity());
}

#[test]
fn normal_of_a_very_large_sphere_is_off() {
    let mut sphere = Sphere::new();
    sphere.set_transformation(scaling(s(1000.0), s(1000.0), s(1000.0)));

    let n = sphere.normal_at(p(1000.0, 0.0, 0.0));

    // before it is brought to length 1 the normal is 0.001 long, too short
    // for its length to be found to five digits
    assert!(!n.magnitude().approx_eq(s(1.0)));
    assert!(n.magnitude().approx_eq(s(1.0001125)));
}

#[test]
fn mirrored_long_vector_changes_its_length() {
    let nearly_unit = Vector(Scalar { raw: (1i64 << 32) + 4000 }, s(0.0), s(0.0), s(0.0));
    assert!(nearly_unit.magnitude().approx_eq(s(1.0)));
    let u = v(40000.0, 0.0, 0.0);

    let mirrored = u.reflect(nearly_unit);

    assert!(!mirrored.magnitude().approx_eq(u.magnitude()));
}

#[test]
fn far_points_on_a_transformed_ray_leave_the_matrix() {
    let m = Matrix::from_vec(vec![
        vec![s(0.3), s(0.7), s(0.1), s(0.9)],
        vec![s(0.7), s(0.3), s(0.9), s(0.1)],
        vec![s(0.1), s(0.9), s(0.3), s(0.7)],
        vec![s(0.0), s(0.0), s(0.0), s(1.0)],
    ]);
    let r = Ray::new(p(0.3, 0.6, 0.9), v(0.7, 0.1, 0.3));

    assert_eq!(r.transform(m).position(s(1000.0)), m.mul_point(r.position(s(1000.0))));
    assert_ne!(r.transform(m).position(s(100000.0)), m.mul_point(r.position(s(100000.0))));
}

#[test]
fn rays_from_inside_a_sphere_meet_it_behind_and_ahead() {
    let sphere = Sphere::new();
    let origins = [p(0.0, 0.0, 0.0), p(0.5, -0.5, 0.5), p(0.0, 0.99, 0.0), p(-0.7, 0.0, 0.7)];
    let directions =
        [v(0.0, 0.0, 1.0), v(0.0625, 0.0, 0.0), v(-4.0, 4.0, 4.0), v(0.3, -0.2, 0.1)];

    for o in origins {
        for d in directions {
            let xs = sphere.local_intersect(Ray::new(o, d));
            assert_eq!(xs.len(), 2);
            assert!(xs[0].t.raw < 0);
            assert!(xs[1].t.raw > 0);
            assert!(xs[0].object.is_same(&sphere));
            assert!(xs[1].object.is_same(&sphere));
        }
    }
}

#[test]
fn very_short_direction_finds_both_meetings_at_zero() {
    let sphere = Sphere::new();
    let r = Ray::new(p(0.0, 0.0, 0.0), v(0.00000762939453125, 0.0, 0.0));

    let xs = sphere.local_intersect(r);

    // the square of the direction's length is under one step
    assert_eq!(r.direction.dot(&r.direction), s(0.0));
    assert_eq!(xs.len(), 2);
    assert_eq!(xs[0].t, s(0.0));
    assert_eq!(xs[1].t, s(0.0));
}
