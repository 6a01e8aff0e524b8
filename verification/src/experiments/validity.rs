//! The fixed scenes are valid: every transformation in them has an inverse,
//! and the inverse of the camera's keeps points and vectors apart.
//!
//! The transformations are built from fixed numbers, so each proof is a
//! calculation: a matrix is given cell by cell in raw integers, and its
//! determinant is worked out from them.

use vstd::prelude::*;
use crate::analysis::{lemma_raw_sin_cos, raw_cos, raw_fold, raw_sin, raw_sine_step};
use crate::camera::spec_affine_row;
use crate::experiments::pattern::{
    is_first_page,
    is_floor_scene,
    spec_crossed_stripes,
    spec_nested_checks,
    spec_radial_fade,
};
use crate::experiments::scene::{is_plane_scene, is_room, spec_scene_camera};
use crate::matrices::{
    lemma_identity_is_transformation,
    lemma_raw_determinant,
    lemma_raw_inverse_last_row,
    lemma_raw_product,
    raw_cofactor,
    raw_det4,
    raw_inverse_last_row,
    raw_product_row,
    spec_raw_matrix,
};
use crate::patterns::Pattern;
use crate::scalar::{
    lemma_from_ratio_is,
    lemma_mul_one_and_zero,
    lemma_raw_mul_div,
    lemma_sqrt_is,
    raw_div,
    raw_mul,
    spec_raw,
    Scalar,
};
use crate::transformation::{
    spec_orientation,
    spec_rotation_x,
    spec_rotation_y,
    spec_rotation_z,
    spec_scaling,
    spec_translation,
    spec_view_transform,
};
use crate::tuples::{Point, Vector};
use crate::world::World;

verus! {

/// Where the eye of the scenes stands.
pub open spec fn spec_eye_from() -> Point {
    Point::spec_new(Scalar::zero(), Scalar::spec_from_ratio(3, 2), Scalar::spec_from_int(5).neg())
}

/// What the eye of the scenes looks at.
pub open spec fn spec_eye_to() -> Point {
    Point::spec_new(Scalar::zero(), Scalar::one(), Scalar::zero())
}

/// What is overhead for the eye of the scenes.
pub open spec fn spec_eye_up() -> Vector {
    Vector::spec_new(Scalar::zero(), Scalar::one(), Scalar::zero())
}

/// The direction in which the eye of the scenes looks.
pub open spec fn spec_eye_forward() -> Vector {
    spec_eye_to().sub(spec_eye_from()).normalize()
}

/// The direction that is up for the eye of the scenes, of length 1.
pub open spec fn spec_eye_upward() -> Vector {
    spec_eye_up().normalize()
}

/// The direction to the left of the eye of the scenes.
pub open spec fn spec_eye_left() -> Vector {
    spec_eye_forward().spec_cross(&spec_eye_upward())
}

/// The direction straight up from the eye of the scenes.
pub open spec fn spec_eye_true_up() -> Vector {
    spec_eye_left().spec_cross(&spec_eye_forward())
}

/// The fraction 3/2, in raw integers.
proof fn lemma_ratio_3_2()
    ensures
        Scalar::spec_from_ratio(3, 2) == spec_raw(6442450944),
{
    lemma_from_ratio_is(3, 2, 6442450944);
}

/// The direction in which the eye of the scenes looks, in raw integers.
proof fn lemma_eye_forward()
    ensures
        spec_eye_to().sub(spec_eye_from()).normalize() == Vector(spec_raw(0), spec_raw(-427365219), spec_raw(4273652190), spec_raw(0)),
{
    lemma_ratio_3_2();
    let v = spec_eye_to().sub(spec_eye_from());
    assert(v == Vector(spec_raw(0), spec_raw(-2147483648), spec_raw(21474836480), spec_raw(0)));
    lemma_mul_one_and_zero(v.0);
    lemma_raw_mul_div(v.1, v.1);
    assert(raw_mul(-2147483648, -2147483648) == 1073741824);
    lemma_raw_mul_div(v.2, v.2);
    assert(raw_mul(21474836480, 21474836480) == 107374182400);
    lemma_mul_one_and_zero(v.3);
    assert(v.spec_norm_squared() == spec_raw(108447924224));
    lemma_sqrt_is(v.spec_norm_squared(), 21581943560);
    lemma_raw_mul_div(v.0, v.spec_magnitude());
    lemma_raw_mul_div(v.1, v.spec_magnitude());
    assert(raw_div(-2147483648, 21581943560) == -427365219);
    lemma_raw_mul_div(v.2, v.spec_magnitude());
    assert(raw_div(21474836480, 21581943560) == 4273652190);
    lemma_raw_mul_div(v.3, v.spec_magnitude());
}

/// The direction that is up for the eye of the scenes, in raw integers.
proof fn lemma_eye_upward()
    ensures
        spec_eye_up().normalize() == Vector(spec_raw(0), spec_raw(4294967296), spec_raw(0), spec_raw(0)),
{
    let v = spec_eye_up();
    assert(v == Vector(spec_raw(0), spec_raw(4294967296), spec_raw(0), spec_raw(0)));
    lemma_mul_one_and_zero(v.0);
    lemma_mul_one_and_zero(v.1);
    lemma_mul_one_and_zero(v.2);
    lemma_mul_one_and_zero(v.3);
    assert(v.spec_norm_squared() == spec_raw(4294967296));
    lemma_sqrt_is(v.spec_norm_squared(), 4294967296);
    lemma_raw_mul_div(v.0, v.spec_magnitude());
    lemma_raw_mul_div(v.1, v.spec_magnitude());
    assert(raw_div(4294967296, 4294967296) == 4294967296);
    lemma_raw_mul_div(v.2, v.spec_magnitude());
    lemma_raw_mul_div(v.3, v.spec_magnitude());
}

/// The direction to the left of the eye of the scenes, in raw integers.
proof fn lemma_eye_left()
    ensures
        spec_eye_forward().spec_cross(&spec_eye_upward()) == Vector(spec_raw(-4273652190), spec_raw(0), spec_raw(0), spec_raw(0)),
{
    lemma_eye_forward();
    lemma_eye_upward();
    let a = spec_eye_forward();
    let b = spec_eye_upward();
    assert(a == Vector(spec_raw(0), spec_raw(-427365219), spec_raw(4273652190), spec_raw(0)));
    assert(b == Vector(spec_raw(0), spec_raw(4294967296), spec_raw(0), spec_raw(0)));
    lemma_mul_one_and_zero(a.1);
    lemma_mul_one_and_zero(a.2);
    lemma_mul_one_and_zero(a.2);
    lemma_mul_one_and_zero(b.2);
    lemma_mul_one_and_zero(b.1);
    lemma_mul_one_and_zero(a.1);
}

/// The direction straight up from the eye of the scenes, in raw integers.
proof fn lemma_eye_true_up()
    ensures
        spec_eye_left().spec_cross(&spec_eye_forward()) == Vector(spec_raw(0), spec_raw(4252442866), spec_raw(425244286), spec_raw(0)),
{
    lemma_eye_forward();
    lemma_eye_left();
    let a = spec_eye_left();
    let b = spec_eye_forward();
    assert(a == Vector(spec_raw(-4273652190), spec_raw(0), spec_raw(0), spec_raw(0)));
    assert(b == Vector(spec_raw(0), spec_raw(-427365219), spec_raw(4273652190), spec_raw(0)));
    lemma_mul_one_and_zero(b.2);
    lemma_mul_one_and_zero(b.1);
    lemma_mul_one_and_zero(b.0);
    lemma_raw_mul_div(a.0, b.2);
    assert(raw_mul(-4273652190, 4273652190) == -4252442866);
    lemma_raw_mul_div(a.0, b.1);
    assert(raw_mul(-4273652190, -427365219) == 425244286);
    lemma_mul_one_and_zero(b.0);
}

/// The transformation of the world as the eye of the scenes sees it, in raw integers.
proof fn lemma_eye_view()
    ensures
        spec_view_transform(spec_eye_from(), spec_eye_to(), spec_eye_up()) == spec_raw_matrix((-4273652190, 0, 0, 0), (0, 4252442866, 425244286, -4252442869), (0, 427365219, -4273652190, -22009308778), (0, 0, 0, 4294967296)),
{
    reveal(spec_view_transform);
    lemma_eye_forward();
    lemma_eye_upward();
    lemma_eye_left();
    lemma_eye_true_up();
    lemma_ratio_3_2();
    let orientation = spec_orientation(spec_eye_left(), spec_eye_true_up(), spec_eye_forward());
    let moved = spec_translation(spec_eye_from().0.neg(), spec_eye_from().1.neg(), spec_eye_from().2.neg());
    assert(orientation == spec_raw_matrix((-4273652190, 0, 0, 0), (0, 4252442866, 425244286, 0), (0, 427365219, -4273652190, 0), (0, 0, 0, 4294967296)));
    assert(moved == spec_raw_matrix((4294967296, 0, 0, 0), (0, 4294967296, 0, -6442450944), (0, 0, 4294967296, 21474836480), (0, 0, 0, 4294967296)));
    lemma_raw_product((-4273652190, 0, 0, 0), (0, 4252442866, 425244286, 0), (0, 427365219, -4273652190, 0), (0, 0, 0, 4294967296), (4294967296, 0, 0, 0), (0, 4294967296, 0, -6442450944), (0, 0, 4294967296, 21474836480), (0, 0, 0, 4294967296));
    assert(raw_product_row((-4273652190, 0, 0, 0), (4294967296, 0, 0, 0), (0, 4294967296, 0, -6442450944), (0, 0, 4294967296, 21474836480), (0, 0, 0, 4294967296)) == (-4273652190int, 0int, 0int, 0int));
    assert(raw_product_row((0, 4252442866, 425244286, 0), (4294967296, 0, 0, 0), (0, 4294967296, 0, -6442450944), (0, 0, 4294967296, 21474836480), (0, 0, 0, 4294967296)) == (0int, 4252442866int, 425244286int, -4252442869int));
    assert(raw_product_row((0, 427365219, -4273652190, 0), (4294967296, 0, 0, 0), (0, 4294967296, 0, -6442450944), (0, 0, 4294967296, 21474836480), (0, 0, 0, 4294967296)) == (0int, 427365219int, -4273652190int, -22009308778int));
    assert(raw_product_row((0, 0, 0, 4294967296), (4294967296, 0, 0, 0), (0, 4294967296, 0, -6442450944), (0, 0, 4294967296, 21474836480), (0, 0, 0, 4294967296)) == (0int, 0int, 0int, 4294967296int));
}

/// The determinant of the view of the eye of the scenes, in raw integers.
proof fn lemma_eye_view_determinant()
    ensures
        raw_det4((-4273652190, 0, 0, 0), (0, 4252442866, 425244286, -4252442869), (0, 427365219, -4273652190, -22009308778), (0, 0, 0, 4294967296)) == 4252442863,
{
    assert(raw_cofactor((0, 4252442866, 425244286, -4252442869), (0, 427365219, -4273652190, -22009308778), (0, 0, 0, 4294967296), 0) == -4273652187);
    assert(raw_mul(-4273652190, -4273652187) == 4252442863);
    assert(raw_cofactor((0, 4252442866, 425244286, -4252442869), (0, 427365219, -4273652190, -22009308778), (0, 0, 0, 4294967296), 1) == 0);
    assert(raw_cofactor((0, 4252442866, 425244286, -4252442869), (0, 427365219, -4273652190, -22009308778), (0, 0, 0, 4294967296), 2) == 0);
    assert(raw_cofactor((0, 4252442866, 425244286, -4252442869), (0, 427365219, -4273652190, -22009308778), (0, 0, 0, 4294967296), 3) == 0);
}

/// The view of the eye of the scenes has an inverse, and the inverse keeps points and vectors apart.
proof fn lemma_eye_view_is_valid()
    ensures
        spec_view_transform(spec_eye_from(), spec_eye_to(), spec_eye_up()).spec_is_transformation(),
        spec_view_transform(spec_eye_from(), spec_eye_to(), spec_eye_up()).spec_inverse().spec_row(3) == spec_affine_row(),
{
    lemma_eye_view();
    lemma_raw_determinant((-4273652190, 0, 0, 0), (0, 4252442866, 425244286, -4252442869), (0, 427365219, -4273652190, -22009308778), (0, 0, 0, 4294967296));
    lemma_eye_view_determinant();
    lemma_raw_inverse_last_row((-4273652190, 0, 0, 0), (0, 4252442866, 425244286, -4252442869), (0, 427365219, -4273652190, -22009308778), (0, 0, 0, 4294967296));
    assert(raw_inverse_last_row((-4273652190, 0, 0, 0), (0, 4252442866, 425244286, -4252442869), (0, 427365219, -4273652190, -22009308778), (0, 0, 0, 4294967296)) == (0int, 0int, 0int, 4294967296int));
}

/// The fraction 1/100, in raw integers.
proof fn lemma_ratio_1_100()
    ensures
        Scalar::spec_from_ratio(1, 100) == spec_raw(42949673),
{
    lemma_from_ratio_is(1, 100, 42949673);
}

/// The scaling that flattens a sphere, in raw integers.
proof fn lemma_flat()
    ensures
        spec_scaling(Scalar::spec_from_int(10), Scalar::spec_from_ratio(1, 100), Scalar::spec_from_int(10)) == spec_raw_matrix((42949672960, 0, 0, 0), (0, 42949673, 0, 0), (0, 0, 42949672960, 0), (0, 0, 0, 4294967296)),
{
    lemma_ratio_1_100();
}

/// The determinant of the scaling that flattens a sphere, in raw integers.
proof fn lemma_flat_determinant()
    ensures
        raw_det4((42949672960, 0, 0, 0), (0, 42949673, 0, 0), (0, 0, 42949672960, 0), (0, 0, 0, 4294967296)) == 4294967300,
{
    assert(raw_cofactor((0, 42949673, 0, 0), (0, 0, 42949672960, 0), (0, 0, 0, 4294967296), 0) == 429496730);
    assert(raw_mul(42949672960, 429496730) == 4294967300);
    assert(raw_cofactor((0, 42949673, 0, 0), (0, 0, 42949672960, 0), (0, 0, 0, 4294967296), 1) == 0);
    assert(raw_cofactor((0, 42949673, 0, 0), (0, 0, 42949672960, 0), (0, 0, 0, 4294967296), 2) == 0);
    assert(raw_cofactor((0, 42949673, 0, 0), (0, 0, 42949672960, 0), (0, 0, 0, 4294967296), 3) == 0);
}

/// The scaling that flattens a sphere has an inverse.
proof fn lemma_flat_is_transformation()
    ensures
        spec_scaling(Scalar::spec_from_int(10), Scalar::spec_from_ratio(1, 100), Scalar::spec_from_int(10)).spec_is_transformation(),
{
    lemma_flat();
    lemma_raw_determinant((42949672960, 0, 0, 0), (0, 42949673, 0, 0), (0, 0, 42949672960, 0), (0, 0, 0, 4294967296));
    lemma_flat_determinant();
}

/// The translation of the walls of the room, in raw integers.
proof fn lemma_wall_back()
    ensures
        spec_translation(Scalar::zero(), Scalar::zero(), Scalar::spec_from_int(5)) == spec_raw_matrix((4294967296, 0, 0, 0), (0, 4294967296, 0, 0), (0, 0, 4294967296, 21474836480), (0, 0, 0, 4294967296)),
{
}

/// The sine of the angle of raw integer 6746518852, step by step.
proof fn lemma_sine_1()
    ensures
        raw_sin(6746518852) == 4294967296,
{
    assert(raw_fold(6746518852) == 6746518852);
    assert(raw_mul(6746518852, 6746518852) == 10597407030);
    assert(raw_sine_step(10597407030, 4294967296, 272) == 4256006241);
    assert(raw_sine_step(10597407030, 4256006241, 210) == 4244961228);
    assert(raw_sine_step(10597407030, 4244961228, 156) == 4227826130);
    assert(raw_sine_step(10597407030, 4227826130, 110) == 4200133271);
    assert(raw_sine_step(10597407030, 4200133271, 72) == 4151030999);
    assert(raw_sine_step(10597407030, 4151030999, 42) == 4051104000);
    assert(raw_sine_step(10597407030, 4051104000, 20) == 3795182373);
    assert(raw_sine_step(10597407030, 3795182373, 6) == 2734261103);
    assert(raw_mul(6746518852, 2734261103) == 4294967296);
}

/// The sine of the angle of raw integer 13493037704, step by step.
proof fn lemma_sine_2()
    ensures
        raw_sin(13493037704) == 1,
{
    assert(raw_fold(13493037704) == 1);
    assert(raw_mul(1, 1) == 0);
    assert(raw_sine_step(0, 4294967296, 272) == 4294967296);
    assert(raw_sine_step(0, 4294967296, 210) == 4294967296);
    assert(raw_sine_step(0, 4294967296, 156) == 4294967296);
    assert(raw_sine_step(0, 4294967296, 110) == 4294967296);
    assert(raw_sine_step(0, 4294967296, 72) == 4294967296);
    assert(raw_sine_step(0, 4294967296, 42) == 4294967296);
    assert(raw_sine_step(0, 4294967296, 20) == 4294967296);
    assert(raw_sine_step(0, 4294967296, 6) == 4294967296);
    assert(raw_mul(1, 4294967296) == 1);
}

/// A half turn over 2, in raw integers.
proof fn lemma_turn_over_2()
    ensures
        Scalar::pi().div(Scalar::spec_from_int(2)) == spec_raw(6746518852),
{
    lemma_raw_mul_div(Scalar::pi(), Scalar::spec_from_int(2));
    assert(raw_div(13493037705, 8589934592) == 6746518852);
}

/// The rotation by a quarter turn around the x axis, in raw integers.
proof fn lemma_stand_up()
    ensures
        spec_rotation_x(Scalar::pi().div(Scalar::spec_from_int(2))) == spec_raw_matrix((4294967296, 0, 0, 0), (0, 1, -4294967296, 0), (0, 4294967296, 1, 0), (0, 0, 0, 4294967296)),
{
    lemma_turn_over_2();
    lemma_raw_sin_cos(Scalar::pi().div(Scalar::spec_from_int(2)));
    lemma_sine_1();
    lemma_sine_2();
    assert(raw_cos(6746518852) == 1);
}

/// The sine of the angle of raw integer -3373259426, step by step.
proof fn lemma_sine_3()
    ensures
        raw_sin(-3373259426) == -3037000500,
{
    assert(raw_fold(-3373259426) == -3373259426);
    assert(raw_mul(-3373259426, -3373259426) == 2649351757);
    assert(raw_sine_step(2649351757, 4294967296, 272) == 4285227033);
    assert(raw_sine_step(2649351757, 4285227033, 210) == 4282379947);
    assert(raw_sine_step(2649351757, 4282379947, 156) == 4278034045);
    assert(raw_sine_step(2649351757, 4278034045, 110) == 4270977238);
    assert(raw_sine_step(2649351757, 4270977238, 72) == 4258376276);
    assert(raw_sine_step(2649351757, 4258376276, 42) == 4232424902);
    assert(raw_sine_step(2649351757, 4232424902, 20) == 4164428673);
    assert(raw_sine_step(2649351757, 4164428673, 6) == 3866829135);
    assert(raw_mul(-3373259426, 3866829135) == -3037000500);
}

/// The sine of the angle of raw integer 3373259426, step by step.
proof fn lemma_sine_4()
    ensures
        raw_sin(3373259426) == 3037000500,
{
    assert(raw_fold(3373259426) == 3373259426);
    assert(raw_mul(3373259426, 3373259426) == 2649351757);
    assert(raw_sine_step(2649351757, 4294967296, 272) == 4285227033);
    assert(raw_sine_step(2649351757, 4285227033, 210) == 4282379947);
    assert(raw_sine_step(2649351757, 4282379947, 156) == 4278034045);
    assert(raw_sine_step(2649351757, 4278034045, 110) == 4270977238);
    assert(raw_sine_step(2649351757, 4270977238, 72) == 4258376276);
    assert(raw_sine_step(2649351757, 4258376276, 42) == 4232424902);
    assert(raw_sine_step(2649351757, 4232424902, 20) == 4164428673);
    assert(raw_sine_step(2649351757, 4164428673, 6) == 3866829135);
    assert(raw_mul(3373259426, 3866829135) == 3037000500);
}

/// A half turn over 4, in raw integers.
proof fn lemma_turn_over_4()
    ensures
        Scalar::pi().div(Scalar::spec_from_int(4)) == spec_raw(3373259426),
{
    lemma_raw_mul_div(Scalar::pi(), Scalar::spec_from_int(4));
    assert(raw_div(13493037705, 17179869184) == 3373259426);
}

/// The rotation by an eighth turn back around the y axis, in raw integers.
proof fn lemma_turn_left_y()
    ensures
        spec_rotation_y(Scalar::pi().div(Scalar::spec_from_int(4)).neg()) == spec_raw_matrix((3037000500, 0, -3037000500, 0), (0, 4294967296, 0, 0), (3037000500, 0, 3037000500, 0), (0, 0, 0, 4294967296)),
{
    lemma_turn_over_4();
    lemma_raw_sin_cos(Scalar::pi().div(Scalar::spec_from_int(4)).neg());
    lemma_sine_3();
    lemma_sine_4();
    assert(raw_cos(-3373259426) == 3037000500);
}

/// The sine of the angle of raw integer 10119778278, step by step.
proof fn lemma_sine_5()
    ensures
        raw_sin(10119778278) == 3037000500,
{
    assert(raw_fold(10119778278) == 3373259427);
    assert(raw_mul(3373259427, 3373259427) == 2649351759);
    assert(raw_sine_step(2649351759, 4294967296, 272) == 4285227033);
    assert(raw_sine_step(2649351759, 4285227033, 210) == 4282379947);
    assert(raw_sine_step(2649351759, 4282379947, 156) == 4278034045);
    assert(raw_sine_step(2649351759, 4278034045, 110) == 4270977238);
    assert(raw_sine_step(2649351759, 4270977238, 72) == 4258376276);
    assert(raw_sine_step(2649351759, 4258376276, 42) == 4232424902);
    assert(raw_sine_step(2649351759, 4232424902, 20) == 4164428673);
    assert(raw_sine_step(2649351759, 4164428673, 6) == 3866829134);
    assert(raw_mul(3373259427, 3866829134) == 3037000500);
}

/// The rotation by an eighth turn around the y axis, in raw integers.
proof fn lemma_turn_right_y()
    ensures
        spec_rotation_y(Scalar::pi().div(Scalar::spec_from_int(4))) == spec_raw_matrix((3037000500, 0, 3037000500, 0), (0, 4294967296, 0, 0), (-3037000500, 0, 3037000500, 0), (0, 0, 0, 4294967296)),
{
    lemma_turn_over_4();
    lemma_raw_sin_cos(Scalar::pi().div(Scalar::spec_from_int(4)));
    lemma_sine_4();
    lemma_sine_5();
    assert(raw_cos(3373259426) == 3037000500);
}

/// The rotation by an eighth turn back around the z axis, in raw integers.
proof fn lemma_turn_left_z()
    ensures
        spec_rotation_z(Scalar::pi().div(Scalar::spec_from_int(4)).neg()) == spec_raw_matrix((3037000500, 3037000500, 0, 0), (-3037000500, 3037000500, 0, 0), (0, 0, 4294967296, 0), (0, 0, 0, 4294967296)),
{
    lemma_turn_over_4();
    lemma_raw_sin_cos(Scalar::pi().div(Scalar::spec_from_int(4)).neg());
    lemma_sine_3();
    lemma_sine_4();
    assert(raw_cos(-3373259426) == 3037000500);
}

/// The rotation by an eighth turn around the z axis, in raw integers.
proof fn lemma_turn_right_z()
    ensures
        spec_rotation_z(Scalar::pi().div(Scalar::spec_from_int(4))) == spec_raw_matrix((3037000500, -3037000500, 0, 0), (3037000500, 3037000500, 0, 0), (0, 0, 4294967296, 0), (0, 0, 0, 4294967296)),
{
    lemma_turn_over_4();
    lemma_raw_sin_cos(Scalar::pi().div(Scalar::spec_from_int(4)));
    lemma_sine_4();
    lemma_sine_5();
    assert(raw_cos(3373259426) == 3037000500);
}

/// The sine of the angle of raw integer 4497679235, step by step.
proof fn lemma_sine_6()
    ensures
        raw_sin(4497679235) == 3719550787,
{
    assert(raw_fold(4497679235) == 4497679235);
    assert(raw_mul(4497679235, 4497679235) == 4709958681);
    assert(raw_sine_step(4709958681, 4294967296, 272) == 4277651272);
    assert(raw_sine_step(4709958681, 4277651272, 210) == 4272629346);
    assert(raw_sine_step(4709958681, 4272629346, 156) == 4264932281);
    assert(raw_sine_step(4709958681, 4264932281, 110) == 4252448918);
    assert(raw_sine_step(4709958681, 4252448918, 72) == 4230198796);
    assert(raw_sine_step(4709958681, 4230198796, 42) == 4184516533);
    assert(raw_sine_step(4709958681, 4184516533, 20) == 4065525503);
    assert(raw_sine_step(4709958681, 4065525503, 6) == 3551909363);
    assert(raw_mul(4497679235, 3551909363) == 3719550787);
}

/// The sine of the angle of raw integer 11244198087, step by step.
proof fn lemma_sine_7()
    ensures
        raw_sin(11244198087) == 2147483648,
{
    assert(raw_fold(11244198087) == 2248839618);
    assert(raw_mul(2248839618, 2248839618) == 1177489670);
    assert(raw_sine_step(1177489670, 4294967296, 272) == 4290638290);
    assert(raw_sine_step(1177489670, 4290638290, 210) == 4289365854);
    assert(raw_sine_step(1177489670, 4289365854, 156) == 4287429130);
    assert(raw_sine_step(1177489670, 4287429130, 110) == 4284281633);
    assert(raw_sine_step(1177489670, 4284281633, 72) == 4278653961);
    assert(raw_sine_step(1177489670, 4278653961, 42) == 4267038314);
    assert(raw_sine_step(1177489670, 4267038314, 20) == 4236475657);
    assert(raw_sine_step(1177489670, 4236475657, 6) == 4101391654);
    assert(raw_mul(2248839618, 4101391654) == 2147483648);
}

/// A half turn over 3, in raw integers.
proof fn lemma_turn_over_3()
    ensures
        Scalar::pi().div(Scalar::spec_from_int(3)) == spec_raw(4497679235),
{
    lemma_raw_mul_div(Scalar::pi(), Scalar::spec_from_int(3));
    assert(raw_div(13493037705, 12884901888) == 4497679235);
}

/// The rotation by a sixth turn around the y axis, in raw integers.
proof fn lemma_turn_sixth_y()
    ensures
        spec_rotation_y(Scalar::pi().div(Scalar::spec_from_int(3))) == spec_raw_matrix((2147483648, 0, 3719550787, 0), (0, 4294967296, 0, 0), (-3719550787, 0, 2147483648, 0), (0, 0, 0, 4294967296)),
{
    lemma_turn_over_3();
    lemma_raw_sin_cos(Scalar::pi().div(Scalar::spec_from_int(3)));
    lemma_sine_6();
    lemma_sine_7();
    assert(raw_cos(4497679235) == 2147483648);
}

/// The first 2 factors of the transformation of the left wall of the room, in raw integers.
proof fn lemma_left_wall_step_1()
    ensures
        spec_translation(Scalar::zero(), Scalar::zero(), Scalar::spec_from_int(5)).spec_mul(spec_rotation_y(Scalar::pi().div(Scalar::spec_from_int(4)).neg())) == spec_raw_matrix((3037000500, 0, -3037000500, 0), (0, 4294967296, 0, 0), (3037000500, 0, 3037000500, 21474836480), (0, 0, 0, 4294967296)),
{
    lemma_wall_back();
    lemma_turn_left_y();
    lemma_raw_product((4294967296, 0, 0, 0), (0, 4294967296, 0, 0), (0, 0, 4294967296, 21474836480), (0, 0, 0, 4294967296), (3037000500, 0, -3037000500, 0), (0, 4294967296, 0, 0), (3037000500, 0, 3037000500, 0), (0, 0, 0, 4294967296));
    assert(raw_product_row((4294967296, 0, 0, 0), (3037000500, 0, -3037000500, 0), (0, 4294967296, 0, 0), (3037000500, 0, 3037000500, 0), (0, 0, 0, 4294967296)) == (3037000500int, 0int, -3037000500int, 0int));
    assert(raw_product_row((0, 4294967296, 0, 0), (3037000500, 0, -3037000500, 0), (0, 4294967296, 0, 0), (3037000500, 0, 3037000500, 0), (0, 0, 0, 4294967296)) == (0int, 4294967296int, 0int, 0int));
    assert(raw_product_row((0, 0, 4294967296, 21474836480), (3037000500, 0, -3037000500, 0), (0, 4294967296, 0, 0), (3037000500, 0, 3037000500, 0), (0, 0, 0, 4294967296)) == (3037000500int, 0int, 3037000500int, 21474836480int));
    assert(raw_product_row((0, 0, 0, 4294967296), (3037000500, 0, -3037000500, 0), (0, 4294967296, 0, 0), (3037000500, 0, 3037000500, 0), (0, 0, 0, 4294967296)) == (0int, 0int, 0int, 4294967296int));
}

/// The first 3 factors of the transformation of the left wall of the room, in raw integers.
proof fn lemma_left_wall_step_2()
    ensures
        spec_translation(Scalar::zero(), Scalar::zero(), Scalar::spec_from_int(5)).spec_mul(spec_rotation_y(Scalar::pi().div(Scalar::spec_from_int(4)).neg())).spec_mul(spec_rotation_x(Scalar::pi().div(Scalar::spec_from_int(2)))) == spec_raw_matrix((3037000500, -3037000500, 0, 0), (0, 1, -4294967296, 0), (3037000500, 3037000500, 0, 21474836480), (0, 0, 0, 4294967296)),
{
    lemma_left_wall_step_1();
    lemma_stand_up();
    lemma_raw_product((3037000500, 0, -3037000500, 0), (0, 4294967296, 0, 0), (3037000500, 0, 3037000500, 21474836480), (0, 0, 0, 4294967296), (4294967296, 0, 0, 0), (0, 1, -4294967296, 0), (0, 4294967296, 1, 0), (0, 0, 0, 4294967296));
    assert(raw_product_row((3037000500, 0, -3037000500, 0), (4294967296, 0, 0, 0), (0, 1, -4294967296, 0), (0, 4294967296, 1, 0), (0, 0, 0, 4294967296)) == (3037000500int, -3037000500int, 0int, 0int));
    assert(raw_product_row((0, 4294967296, 0, 0), (4294967296, 0, 0, 0), (0, 1, -4294967296, 0), (0, 4294967296, 1, 0), (0, 0, 0, 4294967296)) == (0int, 1int, -4294967296int, 0int));
    assert(raw_product_row((3037000500, 0, 3037000500, 21474836480), (4294967296, 0, 0, 0), (0, 1, -4294967296, 0), (0, 4294967296, 1, 0), (0, 0, 0, 4294967296)) == (3037000500int, 3037000500int, 0int, 21474836480int));
    assert(raw_product_row((0, 0, 0, 4294967296), (4294967296, 0, 0, 0), (0, 1, -4294967296, 0), (0, 4294967296, 1, 0), (0, 0, 0, 4294967296)) == (0int, 0int, 0int, 4294967296int));
}

/// The transformation of the left wall of the room, in raw integers.
proof fn lemma_left_wall()
    ensures
        spec_translation(Scalar::zero(), Scalar::zero(), Scalar::spec_from_int(5)).spec_mul(spec_rotation_y(Scalar::pi().div(Scalar::spec_from_int(4)).neg())).spec_mul(spec_rotation_x(Scalar::pi().div(Scalar::spec_from_int(2)))).spec_mul(spec_scaling(Scalar::spec_from_int(10), Scalar::spec_from_ratio(1, 100), Scalar::spec_from_int(10))) == spec_raw_matrix((30370005000, -30370005, 0, 0), (0, 0, -42949672960, 0), (30370005000, 30370005, 0, 21474836480), (0, 0, 0, 4294967296)),
{
    lemma_left_wall_step_2();
    lemma_flat();
    lemma_raw_product((3037000500, -3037000500, 0, 0), (0, 1, -4294967296, 0), (3037000500, 3037000500, 0, 21474836480), (0, 0, 0, 4294967296), (42949672960, 0, 0, 0), (0, 42949673, 0, 0), (0, 0, 42949672960, 0), (0, 0, 0, 4294967296));
    assert(raw_product_row((3037000500, -3037000500, 0, 0), (42949672960, 0, 0, 0), (0, 42949673, 0, 0), (0, 0, 42949672960, 0), (0, 0, 0, 4294967296)) == (30370005000int, -30370005int, 0int, 0int));
    assert(raw_product_row((0, 1, -4294967296, 0), (42949672960, 0, 0, 0), (0, 42949673, 0, 0), (0, 0, 42949672960, 0), (0, 0, 0, 4294967296)) == (0int, 0int, -42949672960int, 0int));
    assert(raw_product_row((3037000500, 3037000500, 0, 21474836480), (42949672960, 0, 0, 0), (0, 42949673, 0, 0), (0, 0, 42949672960, 0), (0, 0, 0, 4294967296)) == (30370005000int, 30370005int, 0int, 21474836480int));
    assert(raw_product_row((0, 0, 0, 4294967296), (42949672960, 0, 0, 0), (0, 42949673, 0, 0), (0, 0, 42949672960, 0), (0, 0, 0, 4294967296)) == (0int, 0int, 0int, 4294967296int));
}

/// The determinant of the transformation of the left wall of the room, in raw integers.
proof fn lemma_left_wall_determinant()
    ensures
        raw_det4((30370005000, -30370005, 0, 0), (0, 0, -42949672960, 0), (30370005000, 30370005, 0, 21474836480), (0, 0, 0, 4294967296)) == 4294967296,
{
    assert(raw_cofactor((0, 0, -42949672960, 0), (30370005000, 30370005, 0, 21474836480), (0, 0, 0, 4294967296), 0) == 303700050);
    assert(raw_mul(30370005000, 303700050) == 2147483648);
    assert(raw_cofactor((0, 0, -42949672960, 0), (30370005000, 30370005, 0, 21474836480), (0, 0, 0, 4294967296), 1) == -303700050000);
    assert(raw_mul(-30370005, -303700050000) == 2147483648);
    assert(raw_cofactor((0, 0, -42949672960, 0), (30370005000, 30370005, 0, 21474836480), (0, 0, 0, 4294967296), 2) == 0);
    assert(raw_cofactor((0, 0, -42949672960, 0), (30370005000, 30370005, 0, 21474836480), (0, 0, 0, 4294967296), 3) == 0);
}

/// The transformation of the left wall of the room has an inverse.
proof fn lemma_left_wall_is_transformation()
    ensures
        spec_translation(Scalar::zero(), Scalar::zero(), Scalar::spec_from_int(5)).spec_mul(spec_rotation_y(Scalar::pi().div(Scalar::spec_from_int(4)).neg())).spec_mul(spec_rotation_x(Scalar::pi().div(Scalar::spec_from_int(2)))).spec_mul(spec_scaling(Scalar::spec_from_int(10), Scalar::spec_from_ratio(1, 100), Scalar::spec_from_int(10))).spec_is_transformation(),
{
    lemma_left_wall();
    lemma_raw_determinant((30370005000, -30370005, 0, 0), (0, 0, -42949672960, 0), (30370005000, 30370005, 0, 21474836480), (0, 0, 0, 4294967296));
    lemma_left_wall_determinant();
}

/// The first 2 factors of the transformation of the right wall of the room, in raw integers.
proof fn lemma_right_wall_step_1()
    ensures
        spec_translation(Scalar::zero(), Scalar::zero(), Scalar::spec_from_int(5)).spec_mul(spec_rotation_y(Scalar::pi().div(Scalar::spec_from_int(4)))) == spec_raw_matrix((3037000500, 0, 3037000500, 0), (0, 4294967296, 0, 0), (-3037000500, 0, 3037000500, 21474836480), (0, 0, 0, 4294967296)),
{
    lemma_wall_back();
    lemma_turn_right_y();
    lemma_raw_product((4294967296, 0, 0, 0), (0, 4294967296, 0, 0), (0, 0, 4294967296, 21474836480), (0, 0, 0, 4294967296), (3037000500, 0, 3037000500, 0), (0, 4294967296, 0, 0), (-3037000500, 0, 3037000500, 0), (0, 0, 0, 4294967296));
    assert(raw_product_row((4294967296, 0, 0, 0), (3037000500, 0, 3037000500, 0), (0, 4294967296, 0, 0), (-3037000500, 0, 3037000500, 0), (0, 0, 0, 4294967296)) == (3037000500int, 0int, 3037000500int, 0int));
    assert(raw_product_row((0, 4294967296, 0, 0), (3037000500, 0, 3037000500, 0), (0, 4294967296, 0, 0), (-3037000500, 0, 3037000500, 0), (0, 0, 0, 4294967296)) == (0int, 4294967296int, 0int, 0int));
    assert(raw_product_row((0, 0, 4294967296, 21474836480), (3037000500, 0, 3037000500, 0), (0, 4294967296, 0, 0), (-3037000500, 0, 3037000500, 0), (0, 0, 0, 4294967296)) == (-3037000500int, 0int, 3037000500int, 21474836480int));
    assert(raw_product_row((0, 0, 0, 4294967296), (3037000500, 0, 3037000500, 0), (0, 4294967296, 0, 0), (-3037000500, 0, 3037000500, 0), (0, 0, 0, 4294967296)) == (0int, 0int, 0int, 4294967296int));
}

/// The first 3 factors of the transformation of the right wall of the room, in raw integers.
proof fn lemma_right_wall_step_2()
    ensures
        spec_translation(Scalar::zero(), Scalar::zero(), Scalar::spec_from_int(5)).spec_mul(spec_rotation_y(Scalar::pi().div(Scalar::spec_from_int(4)))).spec_mul(spec_rotation_x(Scalar::pi().div(Scalar::spec_from_int(2)))) == spec_raw_matrix((3037000500, 3037000500, 0, 0), (0, 1, -4294967296, 0), (-3037000500, 3037000500, 0, 21474836480), (0, 0, 0, 4294967296)),
{
    lemma_right_wall_step_1();
    lemma_stand_up();
    lemma_raw_product((3037000500, 0, 3037000500, 0), (0, 4294967296, 0, 0), (-3037000500, 0, 3037000500, 21474836480), (0, 0, 0, 4294967296), (4294967296, 0, 0, 0), (0, 1, -4294967296, 0), (0, 4294967296, 1, 0), (0, 0, 0, 4294967296));
    assert(raw_product_row((3037000500, 0, 3037000500, 0), (4294967296, 0, 0, 0), (0, 1, -4294967296, 0), (0, 4294967296, 1, 0), (0, 0, 0, 4294967296)) == (3037000500int, 3037000500int, 0int, 0int));
    assert(raw_product_row((0, 4294967296, 0, 0), (4294967296, 0, 0, 0), (0, 1, -4294967296, 0), (0, 4294967296, 1, 0), (0, 0, 0, 4294967296)) == (0int, 1int, -4294967296int, 0int));
    assert(raw_product_row((-3037000500, 0, 3037000500, 21474836480), (4294967296, 0, 0, 0), (0, 1, -4294967296, 0), (0, 4294967296, 1, 0), (0, 0, 0, 4294967296)) == (-3037000500int, 3037000500int, 0int, 21474836480int));
    assert(raw_product_row((0, 0, 0, 4294967296), (4294967296, 0, 0, 0), (0, 1, -4294967296, 0), (0, 4294967296, 1, 0), (0, 0, 0, 4294967296)) == (0int, 0int, 0int, 4294967296int));
}

/// The transformation of the right wall of the room, in raw integers.
proof fn lemma_right_wall()
    ensures
        spec_translation(Scalar::zero(), Scalar::zero(), Scalar::spec_from_int(5)).spec_mul(spec_rotation_y(Scalar::pi().div(Scalar::spec_from_int(4)))).spec_mul(spec_rotation_x(Scalar::pi().div(Scalar::spec_from_int(2)))).spec_mul(spec_scaling(Scalar::spec_from_int(10), Scalar::spec_from_ratio(1, 100), Scalar::spec_from_int(10))) == spec_raw_matrix((30370005000, 30370005, 0, 0), (0, 0, -42949672960, 0), (-30370005000, 30370005, 0, 21474836480), (0, 0, 0, 4294967296)),
{
    lemma_right_wall_step_2();
    lemma_flat();
    lemma_raw_product((3037000500, 3037000500, 0, 0), (0, 1, -4294967296, 0), (-3037000500, 3037000500, 0, 21474836480), (0, 0, 0, 4294967296), (42949672960, 0, 0, 0), (0, 42949673, 0, 0), (0, 0, 42949672960, 0), (0, 0, 0, 4294967296));
    assert(raw_product_row((3037000500, 3037000500, 0, 0), (42949672960, 0, 0, 0), (0, 42949673, 0, 0), (0, 0, 42949672960, 0), (0, 0, 0, 4294967296)) == (30370005000int, 30370005int, 0int, 0int));
    assert(raw_product_row((0, 1, -4294967296, 0), (42949672960, 0, 0, 0), (0, 42949673, 0, 0), (0, 0, 42949672960, 0), (0, 0, 0, 4294967296)) == (0int, 0int, -42949672960int, 0int));
    assert(raw_product_row((-3037000500, 3037000500, 0, 21474836480), (42949672960, 0, 0, 0), (0, 42949673, 0, 0), (0, 0, 42949672960, 0), (0, 0, 0, 4294967296)) == (-30370005000int, 30370005int, 0int, 21474836480int));
    assert(raw_product_row((0, 0, 0, 4294967296), (42949672960, 0, 0, 0), (0, 42949673, 0, 0), (0, 0, 42949672960, 0), (0, 0, 0, 4294967296)) == (0int, 0int, 0int, 4294967296int));
}

/// The determinant of the transformation of the right wall of the room, in raw integers.
proof fn lemma_right_wall_determinant()
    ensures
        raw_det4((30370005000, 30370005, 0, 0), (0, 0, -42949672960, 0), (-30370005000, 30370005, 0, 21474836480), (0, 0, 0, 4294967296)) == 4294967296,
{
    assert(raw_cofactor((0, 0, -42949672960, 0), (-30370005000, 30370005, 0, 21474836480), (0, 0, 0, 4294967296), 0) == 303700050);
    assert(raw_mul(30370005000, 303700050) == 2147483648);
    assert(raw_cofactor((0, 0, -42949672960, 0), (-30370005000, 30370005, 0, 21474836480), (0, 0, 0, 4294967296), 1) == 303700050000);
    assert(raw_mul(30370005, 303700050000) == 2147483648);
    assert(raw_cofactor((0, 0, -42949672960, 0), (-30370005000, 30370005, 0, 21474836480), (0, 0, 0, 4294967296), 2) == 0);
    assert(raw_cofactor((0, 0, -42949672960, 0), (-30370005000, 30370005, 0, 21474836480), (0, 0, 0, 4294967296), 3) == 0);
}

/// The transformation of the right wall of the room has an inverse.
proof fn lemma_right_wall_is_transformation()
    ensures
        spec_translation(Scalar::zero(), Scalar::zero(), Scalar::spec_from_int(5)).spec_mul(spec_rotation_y(Scalar::pi().div(Scalar::spec_from_int(4)))).spec_mul(spec_rotation_x(Scalar::pi().div(Scalar::spec_from_int(2)))).spec_mul(spec_scaling(Scalar::spec_from_int(10), Scalar::spec_from_ratio(1, 100), Scalar::spec_from_int(10))).spec_is_transformation(),
{
    lemma_right_wall();
    lemma_raw_determinant((30370005000, 30370005, 0, 0), (0, 0, -42949672960, 0), (-30370005000, 30370005, 0, 21474836480), (0, 0, 0, 4294967296));
    lemma_right_wall_determinant();
}

/// The fraction 1/2, in raw integers.
proof fn lemma_ratio_1_2()
    ensures
        Scalar::spec_from_ratio(1, 2) == spec_raw(2147483648),
{
    lemma_from_ratio_is(1, 2, 2147483648);
}

/// The transformation of the middle ball, in raw integers.
proof fn lemma_middle()
    ensures
        spec_translation(Scalar::spec_from_ratio(1, 2).neg(), Scalar::one(), Scalar::spec_from_ratio(1, 2)) == spec_raw_matrix((4294967296, 0, 0, -2147483648), (0, 4294967296, 0, 4294967296), (0, 0, 4294967296, 2147483648), (0, 0, 0, 4294967296)),
{
    lemma_ratio_1_2();
}

/// The determinant of the transformation of the middle ball, in raw integers.
proof fn lemma_middle_determinant()
    ensures
        raw_det4((4294967296, 0, 0, -2147483648), (0, 4294967296, 0, 4294967296), (0, 0, 4294967296, 2147483648), (0, 0, 0, 4294967296)) == 4294967296,
{
    assert(raw_cofactor((0, 4294967296, 0, 4294967296), (0, 0, 4294967296, 2147483648), (0, 0, 0, 4294967296), 0) == 4294967296);
    assert(raw_cofactor((0, 4294967296, 0, 4294967296), (0, 0, 4294967296, 2147483648), (0, 0, 0, 4294967296), 1) == 0);
    assert(raw_cofactor((0, 4294967296, 0, 4294967296), (0, 0, 4294967296, 2147483648), (0, 0, 0, 4294967296), 2) == 0);
    assert(raw_cofactor((0, 4294967296, 0, 4294967296), (0, 0, 4294967296, 2147483648), (0, 0, 0, 4294967296), 3) == 0);
}

/// The transformation of the middle ball has an inverse.
proof fn lemma_middle_is_transformation()
    ensures
        spec_translation(Scalar::spec_from_ratio(1, 2).neg(), Scalar::one(), Scalar::spec_from_ratio(1, 2)).spec_is_transformation(),
{
    lemma_middle();
    lemma_raw_determinant((4294967296, 0, 0, -2147483648), (0, 4294967296, 0, 4294967296), (0, 0, 4294967296, 2147483648), (0, 0, 0, 4294967296));
    lemma_middle_determinant();
}

/// The translation of the right ball, in raw integers.
proof fn lemma_right_place()
    ensures
        spec_translation(Scalar::spec_from_ratio(3, 2), Scalar::spec_from_ratio(1, 2), Scalar::spec_from_ratio(1, 2).neg()) == spec_raw_matrix((4294967296, 0, 0, 6442450944), (0, 4294967296, 0, 2147483648), (0, 0, 4294967296, -2147483648), (0, 0, 0, 4294967296)),
{
    lemma_ratio_3_2();
    lemma_ratio_1_2();
}

/// The scaling of the right ball, in raw integers.
proof fn lemma_right_size()
    ensures
        spec_scaling(Scalar::spec_from_ratio(1, 2), Scalar::spec_from_ratio(1, 2), Scalar::spec_from_ratio(1, 2)) == spec_raw_matrix((2147483648, 0, 0, 0), (0, 2147483648, 0, 0), (0, 0, 2147483648, 0), (0, 0, 0, 4294967296)),
{
    lemma_ratio_1_2();
}

/// The transformation of the right ball, in raw integers.
proof fn lemma_right()
    ensures
        spec_translation(Scalar::spec_from_ratio(3, 2), Scalar::spec_from_ratio(1, 2), Scalar::spec_from_ratio(1, 2).neg()).spec_mul(spec_scaling(Scalar::spec_from_ratio(1, 2), Scalar::spec_from_ratio(1, 2), Scalar::spec_from_ratio(1, 2))) == spec_raw_matrix((2147483648, 0, 0, 6442450944), (0, 2147483648, 0, 2147483648), (0, 0, 2147483648, -2147483648), (0, 0, 0, 4294967296)),
{
    lemma_right_place();
    lemma_right_size();
    lemma_raw_product((4294967296, 0, 0, 6442450944), (0, 4294967296, 0, 2147483648), (0, 0, 4294967296, -2147483648), (0, 0, 0, 4294967296), (2147483648, 0, 0, 0), (0, 2147483648, 0, 0), (0, 0, 2147483648, 0), (0, 0, 0, 4294967296));
    assert(raw_product_row((4294967296, 0, 0, 6442450944), (2147483648, 0, 0, 0), (0, 2147483648, 0, 0), (0, 0, 2147483648, 0), (0, 0, 0, 4294967296)) == (2147483648int, 0int, 0int, 6442450944int));
    assert(raw_product_row((0, 4294967296, 0, 2147483648), (2147483648, 0, 0, 0), (0, 2147483648, 0, 0), (0, 0, 2147483648, 0), (0, 0, 0, 4294967296)) == (0int, 2147483648int, 0int, 2147483648int));
    assert(raw_product_row((0, 0, 4294967296, -2147483648), (2147483648, 0, 0, 0), (0, 2147483648, 0, 0), (0, 0, 2147483648, 0), (0, 0, 0, 4294967296)) == (0int, 0int, 2147483648int, -2147483648int));
    assert(raw_product_row((0, 0, 0, 4294967296), (2147483648, 0, 0, 0), (0, 2147483648, 0, 0), (0, 0, 2147483648, 0), (0, 0, 0, 4294967296)) == (0int, 0int, 0int, 4294967296int));
}

/// The determinant of the transformation of the right ball, in raw integers.
proof fn lemma_right_determinant()
    ensures
        raw_det4((2147483648, 0, 0, 6442450944), (0, 2147483648, 0, 2147483648), (0, 0, 2147483648, -2147483648), (0, 0, 0, 4294967296)) == 536870912,
{
    assert(raw_cofactor((0, 2147483648, 0, 2147483648), (0, 0, 2147483648, -2147483648), (0, 0, 0, 4294967296), 0) == 1073741824);
    assert(raw_mul(2147483648, 1073741824) == 536870912);
    assert(raw_cofactor((0, 2147483648, 0, 2147483648), (0, 0, 2147483648, -2147483648), (0, 0, 0, 4294967296), 1) == 0);
    assert(raw_cofactor((0, 2147483648, 0, 2147483648), (0, 0, 2147483648, -2147483648), (0, 0, 0, 4294967296), 2) == 0);
    assert(raw_cofactor((0, 2147483648, 0, 2147483648), (0, 0, 2147483648, -2147483648), (0, 0, 0, 4294967296), 3) == 0);
}

/// The transformation of the right ball has an inverse.
proof fn lemma_right_is_transformation()
    ensures
        spec_translation(Scalar::spec_from_ratio(3, 2), Scalar::spec_from_ratio(1, 2), Scalar::spec_from_ratio(1, 2).neg()).spec_mul(spec_scaling(Scalar::spec_from_ratio(1, 2), Scalar::spec_from_ratio(1, 2), Scalar::spec_from_ratio(1, 2))).spec_is_transformation(),
{
    lemma_right();
    lemma_raw_determinant((2147483648, 0, 0, 6442450944), (0, 2147483648, 0, 2147483648), (0, 0, 2147483648, -2147483648), (0, 0, 0, 4294967296));
    lemma_right_determinant();
}

/// The fraction 33/100, in raw integers.
proof fn lemma_ratio_33_100()
    ensures
        Scalar::spec_from_ratio(33, 100) == spec_raw(1417339208),
{
    lemma_from_ratio_is(33, 100, 1417339208);
}

/// The fraction 3/4, in raw integers.
proof fn lemma_ratio_3_4()
    ensures
        Scalar::spec_from_ratio(3, 4) == spec_raw(3221225472),
{
    lemma_from_ratio_is(3, 4, 3221225472);
}

/// The translation of the left ball, in raw integers.
proof fn lemma_left_place()
    ensures
        spec_translation(Scalar::spec_from_ratio(3, 2).neg(), Scalar::spec_from_ratio(33, 100), Scalar::spec_from_ratio(3, 4).neg()) == spec_raw_matrix((4294967296, 0, 0, -6442450944), (0, 4294967296, 0, 1417339208), (0, 0, 4294967296, -3221225472), (0, 0, 0, 4294967296)),
{
    lemma_ratio_3_2();
    lemma_ratio_33_100();
    lemma_ratio_3_4();
}

/// The scaling of the left ball, in raw integers.
proof fn lemma_left_size()
    ensures
        spec_scaling(Scalar::spec_from_ratio(33, 100), Scalar::spec_from_ratio(33, 100), Scalar::spec_from_ratio(33, 100)) == spec_raw_matrix((1417339208, 0, 0, 0), (0, 1417339208, 0, 0), (0, 0, 1417339208, 0), (0, 0, 0, 4294967296)),
{
    lemma_ratio_33_100();
}

/// The transformation of the left ball, in raw integers.
proof fn lemma_left()
    ensures
        spec_translation(Scalar::spec_from_ratio(3, 2).neg(), Scalar::spec_from_ratio(33, 100), Scalar::spec_from_ratio(3, 4).neg()).spec_mul(spec_scaling(Scalar::spec_from_ratio(33, 100), Scalar::spec_from_ratio(33, 100), Scalar::spec_from_ratio(33, 100))) == spec_raw_matrix((1417339208, 0, 0, -6442450944), (0, 1417339208, 0, 1417339208), (0, 0, 1417339208, -3221225472), (0, 0, 0, 4294967296)),
{
    lemma_left_place();
    lemma_left_size();
    lemma_raw_product((4294967296, 0, 0, -6442450944), (0, 4294967296, 0, 1417339208), (0, 0, 4294967296, -3221225472), (0, 0, 0, 4294967296), (1417339208, 0, 0, 0), (0, 1417339208, 0, 0), (0, 0, 1417339208, 0), (0, 0, 0, 4294967296));
    assert(raw_product_row((4294967296, 0, 0, -6442450944), (1417339208, 0, 0, 0), (0, 1417339208, 0, 0), (0, 0, 1417339208, 0), (0, 0, 0, 4294967296)) == (1417339208int, 0int, 0int, -6442450944int));
    assert(raw_product_row((0, 4294967296, 0, 1417339208), (1417339208, 0, 0, 0), (0, 1417339208, 0, 0), (0, 0, 1417339208, 0), (0, 0, 0, 4294967296)) == (0int, 1417339208int, 0int, 1417339208int));
    assert(raw_product_row((0, 0, 4294967296, -3221225472), (1417339208, 0, 0, 0), (0, 1417339208, 0, 0), (0, 0, 1417339208, 0), (0, 0, 0, 4294967296)) == (0int, 0int, 1417339208int, -3221225472int));
    assert(raw_product_row((0, 0, 0, 4294967296), (1417339208, 0, 0, 0), (0, 1417339208, 0, 0), (0, 0, 1417339208, 0), (0, 0, 0, 4294967296)) == (0int, 0int, 0int, 4294967296int));
}

/// The determinant of the transformation of the left ball, in raw integers.
proof fn lemma_left_determinant()
    ensures
        raw_det4((1417339208, 0, 0, -6442450944), (0, 1417339208, 0, 1417339208), (0, 0, 1417339208, -3221225472), (0, 0, 0, 4294967296)) == 154348239,
{
    assert(raw_cofactor((0, 1417339208, 0, 1417339208), (0, 0, 1417339208, -3221225472), (0, 0, 0, 4294967296), 0) == 467721938);
    assert(raw_mul(1417339208, 467721938) == 154348239);
    assert(raw_cofactor((0, 1417339208, 0, 1417339208), (0, 0, 1417339208, -3221225472), (0, 0, 0, 4294967296), 1) == 0);
    assert(raw_cofactor((0, 1417339208, 0, 1417339208), (0, 0, 1417339208, -3221225472), (0, 0, 0, 4294967296), 2) == 0);
    assert(raw_cofactor((0, 1417339208, 0, 1417339208), (0, 0, 1417339208, -3221225472), (0, 0, 0, 4294967296), 3) == 0);
}

/// The transformation of the left ball has an inverse.
proof fn lemma_left_is_transformation()
    ensures
        spec_translation(Scalar::spec_from_ratio(3, 2).neg(), Scalar::spec_from_ratio(33, 100), Scalar::spec_from_ratio(3, 4).neg()).spec_mul(spec_scaling(Scalar::spec_from_ratio(33, 100), Scalar::spec_from_ratio(33, 100), Scalar::spec_from_ratio(33, 100))).spec_is_transformation(),
{
    lemma_left();
    lemma_raw_determinant((1417339208, 0, 0, -6442450944), (0, 1417339208, 0, 1417339208), (0, 0, 1417339208, -3221225472), (0, 0, 0, 4294967296));
    lemma_left_determinant();
}

/// The translation of the striped wall, in raw integers.
proof fn lemma_page_wall_place()
    ensures
        spec_translation(Scalar::zero(), Scalar::zero(), Scalar::spec_from_int(3)) == spec_raw_matrix((4294967296, 0, 0, 0), (0, 4294967296, 0, 0), (0, 0, 4294967296, 12884901888), (0, 0, 0, 4294967296)),
{
}

/// The scaling of the striped wall, in raw integers.
proof fn lemma_page_wall_size()
    ensures
        spec_scaling(Scalar::spec_from_ratio(1, 2), Scalar::spec_from_ratio(1, 2), Scalar::spec_from_ratio(1, 2)) == spec_raw_matrix((2147483648, 0, 0, 0), (0, 2147483648, 0, 0), (0, 0, 2147483648, 0), (0, 0, 0, 4294967296)),
{
    lemma_ratio_1_2();
}

/// The first 2 factors of the transformation of the striped wall, in raw integers.
proof fn lemma_page_wall_step_1()
    ensures
        spec_translation(Scalar::zero(), Scalar::zero(), Scalar::spec_from_int(3)).spec_mul(spec_rotation_z(Scalar::pi().div(Scalar::spec_from_int(4)))) == spec_raw_matrix((3037000500, -3037000500, 0, 0), (3037000500, 3037000500, 0, 0), (0, 0, 4294967296, 12884901888), (0, 0, 0, 4294967296)),
{
    lemma_page_wall_place();
    lemma_turn_right_z();
    lemma_raw_product((4294967296, 0, 0, 0), (0, 4294967296, 0, 0), (0, 0, 4294967296, 12884901888), (0, 0, 0, 4294967296), (3037000500, -3037000500, 0, 0), (3037000500, 3037000500, 0, 0), (0, 0, 4294967296, 0), (0, 0, 0, 4294967296));
    assert(raw_product_row((4294967296, 0, 0, 0), (3037000500, -3037000500, 0, 0), (3037000500, 3037000500, 0, 0), (0, 0, 4294967296, 0), (0, 0, 0, 4294967296)) == (3037000500int, -3037000500int, 0int, 0int));
    assert(raw_product_row((0, 4294967296, 0, 0), (3037000500, -3037000500, 0, 0), (3037000500, 3037000500, 0, 0), (0, 0, 4294967296, 0), (0, 0, 0, 4294967296)) == (3037000500int, 3037000500int, 0int, 0int));
    assert(raw_product_row((0, 0, 4294967296, 12884901888), (3037000500, -3037000500, 0, 0), (3037000500, 3037000500, 0, 0), (0, 0, 4294967296, 0), (0, 0, 0, 4294967296)) == (0int, 0int, 4294967296int, 12884901888int));
    assert(raw_product_row((0, 0, 0, 4294967296), (3037000500, -3037000500, 0, 0), (3037000500, 3037000500, 0, 0), (0, 0, 4294967296, 0), (0, 0, 0, 4294967296)) == (0int, 0int, 0int, 4294967296int));
}

/// The first 3 factors of the transformation of the striped wall, in raw integers.
proof fn lemma_page_wall_step_2()
    ensures
        spec_translation(Scalar::zero(), Scalar::zero(), Scalar::spec_from_int(3)).spec_mul(spec_rotation_z(Scalar::pi().div(Scalar::spec_from_int(4)))).spec_mul(spec_scaling(Scalar::spec_from_ratio(1, 2), Scalar::spec_from_ratio(1, 2), Scalar::spec_from_ratio(1, 2))) == spec_raw_matrix((1518500250, -1518500250, 0, 0), (1518500250, 1518500250, 0, 0), (0, 0, 2147483648, 12884901888), (0, 0, 0, 4294967296)),
{
    lemma_page_wall_step_1();
    lemma_page_wall_size();
    lemma_raw_product((3037000500, -3037000500, 0, 0), (3037000500, 3037000500, 0, 0), (0, 0, 4294967296, 12884901888), (0, 0, 0, 4294967296), (2147483648, 0, 0, 0), (0, 2147483648, 0, 0), (0, 0, 2147483648, 0), (0, 0, 0, 4294967296));
    assert(raw_product_row((3037000500, -3037000500, 0, 0), (2147483648, 0, 0, 0), (0, 2147483648, 0, 0), (0, 0, 2147483648, 0), (0, 0, 0, 4294967296)) == (1518500250int, -1518500250int, 0int, 0int));
    assert(raw_product_row((3037000500, 3037000500, 0, 0), (2147483648, 0, 0, 0), (0, 2147483648, 0, 0), (0, 0, 2147483648, 0), (0, 0, 0, 4294967296)) == (1518500250int, 1518500250int, 0int, 0int));
    assert(raw_product_row((0, 0, 4294967296, 12884901888), (2147483648, 0, 0, 0), (0, 2147483648, 0, 0), (0, 0, 2147483648, 0), (0, 0, 0, 4294967296)) == (0int, 0int, 2147483648int, 12884901888int));
    assert(raw_product_row((0, 0, 0, 4294967296), (2147483648, 0, 0, 0), (0, 2147483648, 0, 0), (0, 0, 2147483648, 0), (0, 0, 0, 4294967296)) == (0int, 0int, 0int, 4294967296int));
}

/// The transformation of the striped wall, in raw integers.
proof fn lemma_page_wall()
    ensures
        spec_translation(Scalar::zero(), Scalar::zero(), Scalar::spec_from_int(3)).spec_mul(spec_rotation_z(Scalar::pi().div(Scalar::spec_from_int(4)))).spec_mul(spec_scaling(Scalar::spec_from_ratio(1, 2), Scalar::spec_from_ratio(1, 2), Scalar::spec_from_ratio(1, 2))).spec_mul(spec_rotation_x(Scalar::pi().div(Scalar::spec_from_int(2)))) == spec_raw_matrix((1518500250, 0, 1518500250, 0), (1518500250, 0, -1518500250, 0), (0, 2147483648, 0, 12884901888), (0, 0, 0, 4294967296)),
{
    lemma_page_wall_step_2();
    lemma_stand_up();
    lemma_raw_product((1518500250, -1518500250, 0, 0), (1518500250, 1518500250, 0, 0), (0, 0, 2147483648, 12884901888), (0, 0, 0, 4294967296), (4294967296, 0, 0, 0), (0, 1, -4294967296, 0), (0, 4294967296, 1, 0), (0, 0, 0, 4294967296));
    assert(raw_product_row((1518500250, -1518500250, 0, 0), (4294967296, 0, 0, 0), (0, 1, -4294967296, 0), (0, 4294967296, 1, 0), (0, 0, 0, 4294967296)) == (1518500250int, 0int, 1518500250int, 0int));
    assert(raw_product_row((1518500250, 1518500250, 0, 0), (4294967296, 0, 0, 0), (0, 1, -4294967296, 0), (0, 4294967296, 1, 0), (0, 0, 0, 4294967296)) == (1518500250int, 0int, -1518500250int, 0int));
    assert(raw_product_row((0, 0, 2147483648, 12884901888), (4294967296, 0, 0, 0), (0, 1, -4294967296, 0), (0, 4294967296, 1, 0), (0, 0, 0, 4294967296)) == (0int, 2147483648int, 0int, 12884901888int));
    assert(raw_product_row((0, 0, 0, 4294967296), (4294967296, 0, 0, 0), (0, 1, -4294967296, 0), (0, 4294967296, 1, 0), (0, 0, 0, 4294967296)) == (0int, 0int, 0int, 4294967296int));
}

/// The determinant of the transformation of the striped wall, in raw integers.
proof fn lemma_page_wall_determinant()
    ensures
        raw_det4((1518500250, 0, 1518500250, 0), (1518500250, 0, -1518500250, 0), (0, 2147483648, 0, 12884901888), (0, 0, 0, 4294967296)) == 536870912,
{
    assert(raw_cofactor((1518500250, 0, -1518500250, 0), (0, 2147483648, 0, 12884901888), (0, 0, 0, 4294967296), 0) == 759250125);
    assert(raw_mul(1518500250, 759250125) == 268435456);
    assert(raw_cofactor((1518500250, 0, -1518500250, 0), (0, 2147483648, 0, 12884901888), (0, 0, 0, 4294967296), 1) == 0);
    assert(raw_cofactor((1518500250, 0, -1518500250, 0), (0, 2147483648, 0, 12884901888), (0, 0, 0, 4294967296), 2) == 759250125);
    assert(raw_mul(1518500250, 759250125) == 268435456);
    assert(raw_cofactor((1518500250, 0, -1518500250, 0), (0, 2147483648, 0, 12884901888), (0, 0, 0, 4294967296), 3) == 0);
}

/// The transformation of the striped wall has an inverse.
proof fn lemma_page_wall_is_transformation()
    ensures
        spec_translation(Scalar::zero(), Scalar::zero(), Scalar::spec_from_int(3)).spec_mul(spec_rotation_z(Scalar::pi().div(Scalar::spec_from_int(4)))).spec_mul(spec_scaling(Scalar::spec_from_ratio(1, 2), Scalar::spec_from_ratio(1, 2), Scalar::spec_from_ratio(1, 2))).spec_mul(spec_rotation_x(Scalar::pi().div(Scalar::spec_from_int(2)))).spec_is_transformation(),
{
    lemma_page_wall();
    lemma_raw_determinant((1518500250, 0, 1518500250, 0), (1518500250, 0, -1518500250, 0), (0, 2147483648, 0, 12884901888), (0, 0, 0, 4294967296));
    lemma_page_wall_determinant();
}

/// The fraction 2/10, in raw integers.
proof fn lemma_ratio_2_10()
    ensures
        Scalar::spec_from_ratio(2, 10) == spec_raw(858993459),
{
    lemma_from_ratio_is(2, 10, 858993459);
}

/// The transformation of the rings, in raw integers.
proof fn lemma_page_rings()
    ensures
        spec_scaling(Scalar::spec_from_ratio(2, 10), Scalar::one(), Scalar::spec_from_ratio(3, 2)) == spec_raw_matrix((858993459, 0, 0, 0), (0, 4294967296, 0, 0), (0, 0, 6442450944, 0), (0, 0, 0, 4294967296)),
{
    lemma_ratio_2_10();
    lemma_ratio_3_2();
}

/// The determinant of the transformation of the rings, in raw integers.
proof fn lemma_page_rings_determinant()
    ensures
        raw_det4((858993459, 0, 0, 0), (0, 4294967296, 0, 0), (0, 0, 6442450944, 0), (0, 0, 0, 4294967296)) == 1288490188,
{
    assert(raw_cofactor((0, 4294967296, 0, 0), (0, 0, 6442450944, 0), (0, 0, 0, 4294967296), 0) == 6442450944);
    assert(raw_mul(858993459, 6442450944) == 1288490188);
    assert(raw_cofactor((0, 4294967296, 0, 0), (0, 0, 6442450944, 0), (0, 0, 0, 4294967296), 1) == 0);
    assert(raw_cofactor((0, 4294967296, 0, 0), (0, 0, 6442450944, 0), (0, 0, 0, 4294967296), 2) == 0);
    assert(raw_cofactor((0, 4294967296, 0, 0), (0, 0, 6442450944, 0), (0, 0, 0, 4294967296), 3) == 0);
}

/// The transformation of the rings has an inverse.
proof fn lemma_page_rings_is_transformation()
    ensures
        spec_scaling(Scalar::spec_from_ratio(2, 10), Scalar::one(), Scalar::spec_from_ratio(3, 2)).spec_is_transformation(),
{
    lemma_page_rings();
    lemma_raw_determinant((858993459, 0, 0, 0), (0, 4294967296, 0, 0), (0, 0, 6442450944, 0), (0, 0, 0, 4294967296));
    lemma_page_rings_determinant();
}

/// The translation of the ringed sphere, in raw integers.
proof fn lemma_page_big_sphere_place()
    ensures
        spec_translation(Scalar::spec_from_ratio(1, 2).neg(), Scalar::one(), Scalar::zero()) == spec_raw_matrix((4294967296, 0, 0, -2147483648), (0, 4294967296, 0, 4294967296), (0, 0, 4294967296, 0), (0, 0, 0, 4294967296)),
{
    lemma_ratio_1_2();
}

/// The first 2 factors of the transformation of the ringed sphere, in raw integers.
proof fn lemma_page_big_sphere_step_1()
    ensures
        spec_translation(Scalar::spec_from_ratio(1, 2).neg(), Scalar::one(), Scalar::zero()).spec_mul(spec_rotation_z(Scalar::pi().div(Scalar::spec_from_int(4)).neg())) == spec_raw_matrix((3037000500, 3037000500, 0, -2147483648), (-3037000500, 3037000500, 0, 4294967296), (0, 0, 4294967296, 0), (0, 0, 0, 4294967296)),
{
    lemma_page_big_sphere_place();
    lemma_turn_left_z();
    lemma_raw_product((4294967296, 0, 0, -2147483648), (0, 4294967296, 0, 4294967296), (0, 0, 4294967296, 0), (0, 0, 0, 4294967296), (3037000500, 3037000500, 0, 0), (-3037000500, 3037000500, 0, 0), (0, 0, 4294967296, 0), (0, 0, 0, 4294967296));
    assert(raw_product_row((4294967296, 0, 0, -2147483648), (3037000500, 3037000500, 0, 0), (-3037000500, 3037000500, 0, 0), (0, 0, 4294967296, 0), (0, 0, 0, 4294967296)) == (3037000500int, 3037000500int, 0int, -2147483648int));
    assert(raw_product_row((0, 4294967296, 0, 4294967296), (3037000500, 3037000500, 0, 0), (-3037000500, 3037000500, 0, 0), (0, 0, 4294967296, 0), (0, 0, 0, 4294967296)) == (-3037000500int, 3037000500int, 0int, 4294967296int));
    assert(raw_product_row((0, 0, 4294967296, 0), (3037000500, 3037000500, 0, 0), (-3037000500, 3037000500, 0, 0), (0, 0, 4294967296, 0), (0, 0, 0, 4294967296)) == (0int, 0int, 4294967296int, 0int));
    assert(raw_product_row((0, 0, 0, 4294967296), (3037000500, 3037000500, 0, 0), (-3037000500, 3037000500, 0, 0), (0, 0, 4294967296, 0), (0, 0, 0, 4294967296)) == (0int, 0int, 0int, 4294967296int));
}

/// The transformation of the ringed sphere, in raw integers.
proof fn lemma_page_big_sphere()
    ensures
        spec_translation(Scalar::spec_from_ratio(1, 2).neg(), Scalar::one(), Scalar::zero()).spec_mul(spec_rotation_z(Scalar::pi().div(Scalar::spec_from_int(4)).neg())).spec_mul(spec_rotation_y(Scalar::pi().div(Scalar::spec_from_int(3)))) == spec_raw_matrix((1518500250, 3037000500, 2630119584, -2147483648), (-1518500250, 3037000500, -2630119584, 4294967296), (-3719550787, 0, 2147483648, 0), (0, 0, 0, 4294967296)),
{
    lemma_page_big_sphere_step_1();
    lemma_turn_sixth_y();
    lemma_raw_product((3037000500, 3037000500, 0, -2147483648), (-3037000500, 3037000500, 0, 4294967296), (0, 0, 4294967296, 0), (0, 0, 0, 4294967296), (2147483648, 0, 3719550787, 0), (0, 4294967296, 0, 0), (-3719550787, 0, 2147483648, 0), (0, 0, 0, 4294967296));
    assert(raw_product_row((3037000500, 3037000500, 0, -2147483648), (2147483648, 0, 3719550787, 0), (0, 4294967296, 0, 0), (-3719550787, 0, 2147483648, 0), (0, 0, 0, 4294967296)) == (1518500250int, 3037000500int, 2630119584int, -2147483648int));
    assert(raw_product_row((-3037000500, 3037000500, 0, 4294967296), (2147483648, 0, 3719550787, 0), (0, 4294967296, 0, 0), (-3719550787, 0, 2147483648, 0), (0, 0, 0, 4294967296)) == (-1518500250int, 3037000500int, -2630119584int, 4294967296int));
    assert(raw_product_row((0, 0, 4294967296, 0), (2147483648, 0, 3719550787, 0), (0, 4294967296, 0, 0), (-3719550787, 0, 2147483648, 0), (0, 0, 0, 4294967296)) == (-3719550787int, 0int, 2147483648int, 0int));
    assert(raw_product_row((0, 0, 0, 4294967296), (2147483648, 0, 3719550787, 0), (0, 4294967296, 0, 0), (-3719550787, 0, 2147483648, 0), (0, 0, 0, 4294967296)) == (0int, 0int, 0int, 4294967296int));
}

/// The determinant of the transformation of the ringed sphere, in raw integers.
proof fn lemma_page_big_sphere_determinant()
    ensures
        raw_det4((1518500250, 3037000500, 2630119584, -2147483648), (-1518500250, 3037000500, -2630119584, 4294967296), (-3719550787, 0, 2147483648, 0), (0, 0, 0, 4294967296)) == 4294967294,
{
    assert(raw_cofactor((-1518500250, 3037000500, -2630119584, 4294967296), (-3719550787, 0, 2147483648, 0), (0, 0, 0, 4294967296), 0) == 1518500250);
    assert(raw_mul(1518500250, 1518500250) == 536870912);
    assert(raw_cofactor((-1518500250, 3037000500, -2630119584, 4294967296), (-3719550787, 0, 2147483648, 0), (0, 0, 0, 4294967296), 1) == 3037000499);
    assert(raw_mul(3037000500, 3037000499) == 2147483647);
    assert(raw_cofactor((-1518500250, 3037000500, -2630119584, 4294967296), (-3719550787, 0, 2147483648, 0), (0, 0, 0, 4294967296), 2) == 2630119584);
    assert(raw_mul(2630119584, 2630119584) == 1610612735);
    assert(raw_cofactor((-1518500250, 3037000500, -2630119584, 4294967296), (-3719550787, 0, 2147483648, 0), (0, 0, 0, 4294967296), 3) == 0);
}

/// The transformation of the ringed sphere has an inverse.
proof fn lemma_page_big_sphere_is_transformation()
    ensures
        spec_translation(Scalar::spec_from_ratio(1, 2).neg(), Scalar::one(), Scalar::zero()).spec_mul(spec_rotation_z(Scalar::pi().div(Scalar::spec_from_int(4)).neg())).spec_mul(spec_rotation_y(Scalar::pi().div(Scalar::spec_from_int(3)))).spec_is_transformation(),
{
    lemma_page_big_sphere();
    lemma_raw_determinant((1518500250, 3037000500, 2630119584, -2147483648), (-1518500250, 3037000500, -2630119584, 4294967296), (-3719550787, 0, 2147483648, 0), (0, 0, 0, 4294967296));
    lemma_page_big_sphere_determinant();
}

/// The translation of the fading pattern, in raw integers.
proof fn lemma_page_fade_place()
    ensures
        spec_translation(Scalar::one(), Scalar::zero(), Scalar::zero()) == spec_raw_matrix((4294967296, 0, 0, 4294967296), (0, 4294967296, 0, 0), (0, 0, 4294967296, 0), (0, 0, 0, 4294967296)),
{
}

/// The scaling of the fading pattern, in raw integers.
proof fn lemma_page_fade_size()
    ensures
        spec_scaling(Scalar::spec_from_int(2), Scalar::spec_from_int(2), Scalar::spec_from_int(2)) == spec_raw_matrix((8589934592, 0, 0, 0), (0, 8589934592, 0, 0), (0, 0, 8589934592, 0), (0, 0, 0, 4294967296)),
{
}

/// The transformation of the fading pattern, in raw integers.
proof fn lemma_page_fade()
    ensures
        spec_translation(Scalar::one(), Scalar::zero(), Scalar::zero()).spec_mul(spec_scaling(Scalar::spec_from_int(2), Scalar::spec_from_int(2), Scalar::spec_from_int(2))) == spec_raw_matrix((8589934592, 0, 0, 4294967296), (0, 8589934592, 0, 0), (0, 0, 8589934592, 0), (0, 0, 0, 4294967296)),
{
    lemma_page_fade_place();
    lemma_page_fade_size();
    lemma_raw_product((4294967296, 0, 0, 4294967296), (0, 4294967296, 0, 0), (0, 0, 4294967296, 0), (0, 0, 0, 4294967296), (8589934592, 0, 0, 0), (0, 8589934592, 0, 0), (0, 0, 8589934592, 0), (0, 0, 0, 4294967296));
    assert(raw_product_row((4294967296, 0, 0, 4294967296), (8589934592, 0, 0, 0), (0, 8589934592, 0, 0), (0, 0, 8589934592, 0), (0, 0, 0, 4294967296)) == (8589934592int, 0int, 0int, 4294967296int));
    assert(raw_product_row((0, 4294967296, 0, 0), (8589934592, 0, 0, 0), (0, 8589934592, 0, 0), (0, 0, 8589934592, 0), (0, 0, 0, 4294967296)) == (0int, 8589934592int, 0int, 0int));
    assert(raw_product_row((0, 0, 4294967296, 0), (8589934592, 0, 0, 0), (0, 8589934592, 0, 0), (0, 0, 8589934592, 0), (0, 0, 0, 4294967296)) == (0int, 0int, 8589934592int, 0int));
    assert(raw_product_row((0, 0, 0, 4294967296), (8589934592, 0, 0, 0), (0, 8589934592, 0, 0), (0, 0, 8589934592, 0), (0, 0, 0, 4294967296)) == (0int, 0int, 0int, 4294967296int));
}

/// The determinant of the transformation of the fading pattern, in raw integers.
proof fn lemma_page_fade_determinant()
    ensures
        raw_det4((8589934592, 0, 0, 4294967296), (0, 8589934592, 0, 0), (0, 0, 8589934592, 0), (0, 0, 0, 4294967296)) == 34359738368,
{
    assert(raw_cofactor((0, 8589934592, 0, 0), (0, 0, 8589934592, 0), (0, 0, 0, 4294967296), 0) == 17179869184);
    assert(raw_mul(8589934592, 17179869184) == 34359738368);
    assert(raw_cofactor((0, 8589934592, 0, 0), (0, 0, 8589934592, 0), (0, 0, 0, 4294967296), 1) == 0);
    assert(raw_cofactor((0, 8589934592, 0, 0), (0, 0, 8589934592, 0), (0, 0, 0, 4294967296), 2) == 0);
    assert(raw_cofactor((0, 8589934592, 0, 0), (0, 0, 8589934592, 0), (0, 0, 0, 4294967296), 3) == 0);
}

/// The transformation of the fading pattern has an inverse.
proof fn lemma_page_fade_is_transformation()
    ensures
        spec_translation(Scalar::one(), Scalar::zero(), Scalar::zero()).spec_mul(spec_scaling(Scalar::spec_from_int(2), Scalar::spec_from_int(2), Scalar::spec_from_int(2))).spec_is_transformation(),
{
    lemma_page_fade();
    lemma_raw_determinant((8589934592, 0, 0, 4294967296), (0, 8589934592, 0, 0), (0, 0, 8589934592, 0), (0, 0, 0, 4294967296));
    lemma_page_fade_determinant();
}

/// The scaling of the fading sphere, in raw integers.
proof fn lemma_page_small_sphere_size()
    ensures
        spec_scaling(Scalar::spec_from_ratio(33, 100), Scalar::spec_from_ratio(33, 100), Scalar::spec_from_ratio(33, 100)) == spec_raw_matrix((1417339208, 0, 0, 0), (0, 1417339208, 0, 0), (0, 0, 1417339208, 0), (0, 0, 0, 4294967296)),
{
    lemma_ratio_33_100();
}

/// The translation of the fading sphere, in raw integers.
proof fn lemma_page_small_sphere_place()
    ensures
        spec_translation(Scalar::spec_from_int(5), Scalar::one(), Scalar::spec_from_int(2).neg()) == spec_raw_matrix((4294967296, 0, 0, 21474836480), (0, 4294967296, 0, 4294967296), (0, 0, 4294967296, -8589934592), (0, 0, 0, 4294967296)),
{
}

/// The first 2 factors of the transformation of the fading sphere, in raw integers.
proof fn lemma_page_small_sphere_step_1()
    ensures
        spec_scaling(Scalar::spec_from_ratio(33, 100), Scalar::spec_from_ratio(33, 100), Scalar::spec_from_ratio(33, 100)).spec_mul(spec_translation(Scalar::spec_from_int(5), Scalar::one(), Scalar::spec_from_int(2).neg())) == spec_raw_matrix((1417339208, 0, 0, 7086696040), (0, 1417339208, 0, 1417339208), (0, 0, 1417339208, -2834678416), (0, 0, 0, 4294967296)),
{
    lemma_page_small_sphere_size();
    lemma_page_small_sphere_place();
    lemma_raw_product((1417339208, 0, 0, 0), (0, 1417339208, 0, 0), (0, 0, 1417339208, 0), (0, 0, 0, 4294967296), (4294967296, 0, 0, 21474836480), (0, 4294967296, 0, 4294967296), (0, 0, 4294967296, -8589934592), (0, 0, 0, 4294967296));
    assert(raw_product_row((1417339208, 0, 0, 0), (4294967296, 0, 0, 21474836480), (0, 4294967296, 0, 4294967296), (0, 0, 4294967296, -8589934592), (0, 0, 0, 4294967296)) == (1417339208int, 0int, 0int, 7086696040int));
    assert(raw_product_row((0, 1417339208, 0, 0), (4294967296, 0, 0, 21474836480), (0, 4294967296, 0, 4294967296), (0, 0, 4294967296, -8589934592), (0, 0, 0, 4294967296)) == (0int, 1417339208int, 0int, 1417339208int));
    assert(raw_product_row((0, 0, 1417339208, 0), (4294967296, 0, 0, 21474836480), (0, 4294967296, 0, 4294967296), (0, 0, 4294967296, -8589934592), (0, 0, 0, 4294967296)) == (0int, 0int, 1417339208int, -2834678416int));
    assert(raw_product_row((0, 0, 0, 4294967296), (4294967296, 0, 0, 21474836480), (0, 4294967296, 0, 4294967296), (0, 0, 4294967296, -8589934592), (0, 0, 0, 4294967296)) == (0int, 0int, 0int, 4294967296int));
}

/// The first 3 factors of the transformation of the fading sphere, in raw integers.
proof fn lemma_page_small_sphere_step_2()
    ensures
        spec_scaling(Scalar::spec_from_ratio(33, 100), Scalar::spec_from_ratio(33, 100), Scalar::spec_from_ratio(33, 100)).spec_mul(spec_translation(Scalar::spec_from_int(5), Scalar::one(), Scalar::spec_from_int(2).neg())).spec_mul(spec_rotation_y(Scalar::pi().div(Scalar::spec_from_int(4)).neg())) == spec_raw_matrix((1002210165, 0, -1002210165, 7086696040), (0, 1417339208, 0, 1417339208), (1002210165, 0, 1002210165, -2834678416), (0, 0, 0, 4294967296)),
{
    lemma_page_small_sphere_step_1();
    lemma_turn_left_y();
    lemma_raw_product((1417339208, 0, 0, 7086696040), (0, 1417339208, 0, 1417339208), (0, 0, 1417339208, -2834678416), (0, 0, 0, 4294967296), (3037000500, 0, -3037000500, 0), (0, 4294967296, 0, 0), (3037000500, 0, 3037000500, 0), (0, 0, 0, 4294967296));
    assert(raw_product_row((1417339208, 0, 0, 7086696040), (3037000500, 0, -3037000500, 0), (0, 4294967296, 0, 0), (3037000500, 0, 3037000500, 0), (0, 0, 0, 4294967296)) == (1002210165int, 0int, -1002210165int, 7086696040int));
    assert(raw_product_row((0, 1417339208, 0, 1417339208), (3037000500, 0, -3037000500, 0), (0, 4294967296, 0, 0), (3037000500, 0, 3037000500, 0), (0, 0, 0, 4294967296)) == (0int, 1417339208int, 0int, 1417339208int));
    assert(raw_product_row((0, 0, 1417339208, -2834678416), (3037000500, 0, -3037000500, 0), (0, 4294967296, 0, 0), (3037000500, 0, 3037000500, 0), (0, 0, 0, 4294967296)) == (1002210165int, 0int, 1002210165int, -2834678416int));
    assert(raw_product_row((0, 0, 0, 4294967296), (3037000500, 0, -3037000500, 0), (0, 4294967296, 0, 0), (3037000500, 0, 3037000500, 0), (0, 0, 0, 4294967296)) == (0int, 0int, 0int, 4294967296int));
}

/// The transformation of the fading sphere, in raw integers.
proof fn lemma_page_small_sphere()
    ensures
        spec_scaling(Scalar::spec_from_ratio(33, 100), Scalar::spec_from_ratio(33, 100), Scalar::spec_from_ratio(33, 100)).spec_mul(spec_translation(Scalar::spec_from_int(5), Scalar::one(), Scalar::spec_from_int(2).neg())).spec_mul(spec_rotation_y(Scalar::pi().div(Scalar::spec_from_int(4)).neg())).spec_mul(spec_rotation_z(Scalar::pi().div(Scalar::spec_from_int(4)))) == spec_raw_matrix((708669603, -708669603, -1002210165, 7086696040), (1002210165, 1002210165, 0, 1417339208), (708669603, -708669603, 1002210165, -2834678416), (0, 0, 0, 4294967296)),
{
    lemma_page_small_sphere_step_2();
    lemma_turn_right_z();
    lemma_raw_product((1002210165, 0, -1002210165, 7086696040), (0, 1417339208, 0, 1417339208), (1002210165, 0, 1002210165, -2834678416), (0, 0, 0, 4294967296), (3037000500, -3037000500, 0, 0), (3037000500, 3037000500, 0, 0), (0, 0, 4294967296, 0), (0, 0, 0, 4294967296));
    assert(raw_product_row((1002210165, 0, -1002210165, 7086696040), (3037000500, -3037000500, 0, 0), (3037000500, 3037000500, 0, 0), (0, 0, 4294967296, 0), (0, 0, 0, 4294967296)) == (708669603int, -708669603int, -1002210165int, 7086696040int));
    assert(raw_product_row((0, 1417339208, 0, 1417339208), (3037000500, -3037000500, 0, 0), (3037000500, 3037000500, 0, 0), (0, 0, 4294967296, 0), (0, 0, 0, 4294967296)) == (1002210165int, 1002210165int, 0int, 1417339208int));
    assert(raw_product_row((1002210165, 0, 1002210165, -2834678416), (3037000500, -3037000500, 0, 0), (3037000500, 3037000500, 0, 0), (0, 0, 4294967296, 0), (0, 0, 0, 4294967296)) == (708669603int, -708669603int, 1002210165int, -2834678416int));
    assert(raw_product_row((0, 0, 0, 4294967296), (3037000500, -3037000500, 0, 0), (3037000500, 3037000500, 0, 0), (0, 0, 4294967296, 0), (0, 0, 0, 4294967296)) == (0int, 0int, 0int, 4294967296int));
}

/// The determinant of the transformation of the fading sphere, in raw integers.
proof fn lemma_page_small_sphere_determinant()
    ensures
        raw_det4((708669603, -708669603, -1002210165, 7086696040), (1002210165, 1002210165, 0, 1417339208), (708669603, -708669603, 1002210165, -2834678416), (0, 0, 0, 4294967296)) == 154348237,
{
    assert(raw_cofactor((1002210165, 1002210165, 0, 1417339208), (708669603, -708669603, 1002210165, -2834678416), (0, 0, 0, 4294967296), 0) == 233860969);
    assert(raw_mul(708669603, 233860969) == 38587059);
    assert(raw_cofactor((1002210165, 1002210165, 0, 1417339208), (708669603, -708669603, 1002210165, -2834678416), (0, 0, 0, 4294967296), 1) == -233860969);
    assert(raw_mul(-708669603, -233860969) == 38587059);
    assert(raw_cofactor((1002210165, 1002210165, 0, 1417339208), (708669603, -708669603, 1002210165, -2834678416), (0, 0, 0, 4294967296), 2) == -330729354);
    assert(raw_mul(-1002210165, -330729354) == 77174119);
    assert(raw_cofactor((1002210165, 1002210165, 0, 1417339208), (708669603, -708669603, 1002210165, -2834678416), (0, 0, 0, 4294967296), 3) == 0);
}

/// The transformation of the fading sphere has an inverse.
proof fn lemma_page_small_sphere_is_transformation()
    ensures
        spec_scaling(Scalar::spec_from_ratio(33, 100), Scalar::spec_from_ratio(33, 100), Scalar::spec_from_ratio(33, 100)).spec_mul(spec_translation(Scalar::spec_from_int(5), Scalar::one(), Scalar::spec_from_int(2).neg())).spec_mul(spec_rotation_y(Scalar::pi().div(Scalar::spec_from_int(4)).neg())).spec_mul(spec_rotation_z(Scalar::pi().div(Scalar::spec_from_int(4)))).spec_is_transformation(),
{
    lemma_page_small_sphere();
    lemma_raw_determinant((708669603, -708669603, -1002210165, 7086696040), (1002210165, 1002210165, 0, 1417339208), (708669603, -708669603, 1002210165, -2834678416), (0, 0, 0, 4294967296));
    lemma_page_small_sphere_determinant();
}

/// The scaling of the stripes inside the checks, in raw integers.
proof fn lemma_fine()
    ensures
        spec_scaling(Scalar::spec_from_ratio(2, 10), Scalar::spec_from_ratio(2, 10), Scalar::spec_from_ratio(2, 10)) == spec_raw_matrix((858993459, 0, 0, 0), (0, 858993459, 0, 0), (0, 0, 858993459, 0), (0, 0, 0, 4294967296)),
{
    lemma_ratio_2_10();
}

/// The transformation of the first stripes inside the checks, in raw integers.
proof fn lemma_nested_first()
    ensures
        spec_scaling(Scalar::spec_from_ratio(2, 10), Scalar::spec_from_ratio(2, 10), Scalar::spec_from_ratio(2, 10)).spec_mul(spec_rotation_y(Scalar::pi().div(Scalar::spec_from_int(4)))) == spec_raw_matrix((607400099, 0, 607400099, 0), (0, 858993459, 0, 0), (-607400099, 0, 607400099, 0), (0, 0, 0, 4294967296)),
{
    lemma_fine();
    lemma_turn_right_y();
    lemma_raw_product((858993459, 0, 0, 0), (0, 858993459, 0, 0), (0, 0, 858993459, 0), (0, 0, 0, 4294967296), (3037000500, 0, 3037000500, 0), (0, 4294967296, 0, 0), (-3037000500, 0, 3037000500, 0), (0, 0, 0, 4294967296));
    assert(raw_product_row((858993459, 0, 0, 0), (3037000500, 0, 3037000500, 0), (0, 4294967296, 0, 0), (-3037000500, 0, 3037000500, 0), (0, 0, 0, 4294967296)) == (607400099int, 0int, 607400099int, 0int));
    assert(raw_product_row((0, 858993459, 0, 0), (3037000500, 0, 3037000500, 0), (0, 4294967296, 0, 0), (-3037000500, 0, 3037000500, 0), (0, 0, 0, 4294967296)) == (0int, 858993459int, 0int, 0int));
    assert(raw_product_row((0, 0, 858993459, 0), (3037000500, 0, 3037000500, 0), (0, 4294967296, 0, 0), (-3037000500, 0, 3037000500, 0), (0, 0, 0, 4294967296)) == (-607400099int, 0int, 607400099int, 0int));
    assert(raw_product_row((0, 0, 0, 4294967296), (3037000500, 0, 3037000500, 0), (0, 4294967296, 0, 0), (-3037000500, 0, 3037000500, 0), (0, 0, 0, 4294967296)) == (0int, 0int, 0int, 4294967296int));
}

/// The determinant of the transformation of the first stripes inside the checks, in raw integers.
proof fn lemma_nested_first_determinant()
    ensures
        raw_det4((607400099, 0, 607400099, 0), (0, 858993459, 0, 0), (-607400099, 0, 607400099, 0), (0, 0, 0, 4294967296)) == 34359738,
{
    assert(raw_cofactor((0, 858993459, 0, 0), (-607400099, 0, 607400099, 0), (0, 0, 0, 4294967296), 0) == 121480019);
    assert(raw_mul(607400099, 121480019) == 17179869);
    assert(raw_cofactor((0, 858993459, 0, 0), (-607400099, 0, 607400099, 0), (0, 0, 0, 4294967296), 1) == 0);
    assert(raw_cofactor((0, 858993459, 0, 0), (-607400099, 0, 607400099, 0), (0, 0, 0, 4294967296), 2) == 121480019);
    assert(raw_mul(607400099, 121480019) == 17179869);
    assert(raw_cofactor((0, 858993459, 0, 0), (-607400099, 0, 607400099, 0), (0, 0, 0, 4294967296), 3) == 0);
}

/// The transformation of the first stripes inside the checks has an inverse.
proof fn lemma_nested_first_is_transformation()
    ensures
        spec_scaling(Scalar::spec_from_ratio(2, 10), Scalar::spec_from_ratio(2, 10), Scalar::spec_from_ratio(2, 10)).spec_mul(spec_rotation_y(Scalar::pi().div(Scalar::spec_from_int(4)))).spec_is_transformation(),
{
    lemma_nested_first();
    lemma_raw_determinant((607400099, 0, 607400099, 0), (0, 858993459, 0, 0), (-607400099, 0, 607400099, 0), (0, 0, 0, 4294967296));
    lemma_nested_first_determinant();
}

/// The transformation of the second stripes inside the checks, in raw integers.
proof fn lemma_nested_second()
    ensures
        spec_scaling(Scalar::spec_from_ratio(2, 10), Scalar::spec_from_ratio(2, 10), Scalar::spec_from_ratio(2, 10)).spec_mul(spec_rotation_y(Scalar::pi().div(Scalar::spec_from_int(4)).neg())) == spec_raw_matrix((607400099, 0, -607400099, 0), (0, 858993459, 0, 0), (607400099, 0, 607400099, 0), (0, 0, 0, 4294967296)),
{
    lemma_fine();
    lemma_turn_left_y();
    lemma_raw_product((858993459, 0, 0, 0), (0, 858993459, 0, 0), (0, 0, 858993459, 0), (0, 0, 0, 4294967296), (3037000500, 0, -3037000500, 0), (0, 4294967296, 0, 0), (3037000500, 0, 3037000500, 0), (0, 0, 0, 4294967296));
    assert(raw_product_row((858993459, 0, 0, 0), (3037000500, 0, -3037000500, 0), (0, 4294967296, 0, 0), (3037000500, 0, 3037000500, 0), (0, 0, 0, 4294967296)) == (607400099int, 0int, -607400099int, 0int));
    assert(raw_product_row((0, 858993459, 0, 0), (3037000500, 0, -3037000500, 0), (0, 4294967296, 0, 0), (3037000500, 0, 3037000500, 0), (0, 0, 0, 4294967296)) == (0int, 858993459int, 0int, 0int));
    assert(raw_product_row((0, 0, 858993459, 0), (3037000500, 0, -3037000500, 0), (0, 4294967296, 0, 0), (3037000500, 0, 3037000500, 0), (0, 0, 0, 4294967296)) == (607400099int, 0int, 607400099int, 0int));
    assert(raw_product_row((0, 0, 0, 4294967296), (3037000500, 0, -3037000500, 0), (0, 4294967296, 0, 0), (3037000500, 0, 3037000500, 0), (0, 0, 0, 4294967296)) == (0int, 0int, 0int, 4294967296int));
}

/// The determinant of the transformation of the second stripes inside the checks, in raw integers.
proof fn lemma_nested_second_determinant()
    ensures
        raw_det4((607400099, 0, -607400099, 0), (0, 858993459, 0, 0), (607400099, 0, 607400099, 0), (0, 0, 0, 4294967296)) == 34359738,
{
    assert(raw_cofactor((0, 858993459, 0, 0), (607400099, 0, 607400099, 0), (0, 0, 0, 4294967296), 0) == 121480019);
    assert(raw_mul(607400099, 121480019) == 17179869);
    assert(raw_cofactor((0, 858993459, 0, 0), (607400099, 0, 607400099, 0), (0, 0, 0, 4294967296), 1) == 0);
    assert(raw_cofactor((0, 858993459, 0, 0), (607400099, 0, 607400099, 0), (0, 0, 0, 4294967296), 2) == -121480019);
    assert(raw_mul(-607400099, -121480019) == 17179869);
    assert(raw_cofactor((0, 858993459, 0, 0), (607400099, 0, 607400099, 0), (0, 0, 0, 4294967296), 3) == 0);
}

/// The transformation of the second stripes inside the checks has an inverse.
proof fn lemma_nested_second_is_transformation()
    ensures
        spec_scaling(Scalar::spec_from_ratio(2, 10), Scalar::spec_from_ratio(2, 10), Scalar::spec_from_ratio(2, 10)).spec_mul(spec_rotation_y(Scalar::pi().div(Scalar::spec_from_int(4)).neg())).spec_is_transformation(),
{
    lemma_nested_second();
    lemma_raw_determinant((607400099, 0, -607400099, 0), (0, 858993459, 0, 0), (607400099, 0, 607400099, 0), (0, 0, 0, 4294967296));
    lemma_nested_second_determinant();
}

/// The determinant of the rotation by an eighth turn around the y axis, in raw integers.
proof fn lemma_turn_right_y_determinant()
    ensures
        raw_det4((3037000500, 0, 3037000500, 0), (0, 4294967296, 0, 0), (-3037000500, 0, 3037000500, 0), (0, 0, 0, 4294967296)) == 4294967296,
{
    assert(raw_cofactor((0, 4294967296, 0, 0), (-3037000500, 0, 3037000500, 0), (0, 0, 0, 4294967296), 0) == 3037000500);
    assert(raw_mul(3037000500, 3037000500) == 2147483648);
    assert(raw_cofactor((0, 4294967296, 0, 0), (-3037000500, 0, 3037000500, 0), (0, 0, 0, 4294967296), 1) == 0);
    assert(raw_cofactor((0, 4294967296, 0, 0), (-3037000500, 0, 3037000500, 0), (0, 0, 0, 4294967296), 2) == 3037000500);
    assert(raw_mul(3037000500, 3037000500) == 2147483648);
    assert(raw_cofactor((0, 4294967296, 0, 0), (-3037000500, 0, 3037000500, 0), (0, 0, 0, 4294967296), 3) == 0);
}

/// The rotation by an eighth turn around the y axis has an inverse.
proof fn lemma_turn_right_y_is_transformation()
    ensures
        spec_rotation_y(Scalar::pi().div(Scalar::spec_from_int(4))).spec_is_transformation(),
{
    lemma_turn_right_y();
    lemma_raw_determinant((3037000500, 0, 3037000500, 0), (0, 4294967296, 0, 0), (-3037000500, 0, 3037000500, 0), (0, 0, 0, 4294967296));
    lemma_turn_right_y_determinant();
}

/// The determinant of the rotation by an eighth turn back around the y axis, in raw integers.
proof fn lemma_turn_left_y_determinant()
    ensures
        raw_det4((3037000500, 0, -3037000500, 0), (0, 4294967296, 0, 0), (3037000500, 0, 3037000500, 0), (0, 0, 0, 4294967296)) == 4294967296,
{
    assert(raw_cofactor((0, 4294967296, 0, 0), (3037000500, 0, 3037000500, 0), (0, 0, 0, 4294967296), 0) == 3037000500);
    assert(raw_mul(3037000500, 3037000500) == 2147483648);
    assert(raw_cofactor((0, 4294967296, 0, 0), (3037000500, 0, 3037000500, 0), (0, 0, 0, 4294967296), 1) == 0);
    assert(raw_cofactor((0, 4294967296, 0, 0), (3037000500, 0, 3037000500, 0), (0, 0, 0, 4294967296), 2) == -3037000500);
    assert(raw_mul(-3037000500, -3037000500) == 2147483648);
    assert(raw_cofactor((0, 4294967296, 0, 0), (3037000500, 0, 3037000500, 0), (0, 0, 0, 4294967296), 3) == 0);
}

/// The rotation by an eighth turn back around the y axis has an inverse.
proof fn lemma_turn_left_y_is_transformation()
    ensures
        spec_rotation_y(Scalar::pi().div(Scalar::spec_from_int(4)).neg()).spec_is_transformation(),
{
    lemma_turn_left_y();
    lemma_raw_determinant((3037000500, 0, -3037000500, 0), (0, 4294967296, 0, 0), (3037000500, 0, 3037000500, 0), (0, 0, 0, 4294967296));
    lemma_turn_left_y_determinant();
}

/// The camera of the scenes is valid, whatever its size.
pub proof fn lemma_scene_camera_is_valid(hsize: usize, vsize: usize)
    ensures
        spec_scene_camera(hsize, vsize).valid(),
{
    lemma_eye_view_is_valid();
}

/// The room is valid: each of its six shapes has a transformation with an
/// inverse and a plain color.
pub proof fn lemma_room_is_valid(world: &World)
    requires
        is_room(world),
    ensures
        world.valid(),
{
    lemma_identity_is_transformation();
    lemma_flat_is_transformation();
    lemma_left_wall_is_transformation();
    lemma_right_wall_is_transformation();
    lemma_middle_is_transformation();
    lemma_right_is_transformation();
    lemma_left_is_transformation();
    assert(world.objects[0].valid());
    assert(world.objects[1].valid());
    assert(world.objects[2].valid());
    assert(world.objects[3].valid());
    assert(world.objects[4].valid());
    assert(world.objects[5].valid());
}

/// The three balls on a plane are valid.
pub proof fn lemma_plane_scene_is_valid(world: &World)
    requires
        is_plane_scene(world),
    ensures
        world.valid(),
{
    lemma_identity_is_transformation();
    lemma_middle_is_transformation();
    lemma_right_is_transformation();
    lemma_left_is_transformation();
    assert(world.objects[0].valid());
    assert(world.objects[1].valid());
    assert(world.objects[2].valid());
    assert(world.objects[3].valid());
}

/// The world of the first picture is valid.
pub proof fn lemma_first_page_is_valid(world: &World)
    requires
        is_first_page(world),
    ensures
        world.valid(),
{
    reveal_with_fuel(Pattern::valid, 2);
    lemma_identity_is_transformation();
    lemma_page_wall_is_transformation();
    lemma_page_rings_is_transformation();
    lemma_page_big_sphere_is_transformation();
    lemma_page_fade_is_transformation();
    lemma_page_small_sphere_is_transformation();
    assert(world.objects[0].valid());
    assert(world.objects[1].valid());
    assert(world.objects[2].valid());
    assert(world.objects[3].valid());
}

/// A plane with a valid pattern, under the scenes' light, is a valid world.
pub proof fn lemma_floor_scene_is_valid(world: &World, pattern: Pattern)
    requires
        is_floor_scene(world, pattern),
        pattern.valid(),
    ensures
        world.valid(),
{
    lemma_identity_is_transformation();
    assert(world.objects[0].valid());
}

/// The pattern that fades outward is valid.
pub proof fn lemma_radial_fade_is_valid()
    ensures
        spec_radial_fade().valid(),
{
    lemma_identity_is_transformation();
}

/// The pattern of striped checks is valid.
pub proof fn lemma_nested_checks_is_valid()
    ensures
        spec_nested_checks().valid(),
{
    reveal_with_fuel(Pattern::valid, 3);
    lemma_identity_is_transformation();
    lemma_nested_first_is_transformation();
    lemma_nested_second_is_transformation();
}

/// The pattern of crossed stripes is valid.
pub proof fn lemma_crossed_stripes_is_valid()
    ensures
        spec_crossed_stripes().valid(),
{
    reveal_with_fuel(Pattern::valid, 3);
    lemma_identity_is_transformation();
    lemma_turn_right_y_is_transformation();
    lemma_turn_left_y_is_transformation();
}

} // verus!
