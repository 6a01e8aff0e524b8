use raytracer::scalar::{Scalar, EPSILON_RAW, ONE_RAW};
use raytracer::utils::zero_if_trivial;
use std::f64::consts::PI;

fn s(x: f64) -> Scalar {
    Scalar { raw: (x * 4294967296.0).round() as i64 }
}

fn f(x: Scalar) -> f64 {
    x.raw as f64 / 4294967296.0
}

fn near(x: Scalar, y: f64, tolerance: f64) -> bool {
    (f(x) - y).abs() <= tolerance
}

#[test]
fn whole_numbers_and_fractions() {
    assert_eq!(Scalar::from_int(3).raw, 3 * ONE_RAW);
    assert_eq!(Scalar::from_int(-3).raw, -3 * ONE_RAW);
    assert_eq!(Scalar::from_int(1 << 40).raw, i64::MAX);
    assert_eq!(Scalar::from_int(-(1 << 40)).raw, i64::MIN);
    assert_eq!(Scalar::from_usize(7), s(7.0));
    assert_eq!(Scalar::from_usize(usize::MAX).raw, i64::MAX);
    assert_eq!(Scalar::from_ratio(1, 2), s(0.5));
    assert_eq!(Scalar::from_ratio(1, 10), s(0.1));
    assert_eq!(Scalar::from_ratio(-1, 10), s(-0.1));
    assert_eq!(Scalar::from_ratio(1, -10), s(-0.1));
    assert_eq!(Scalar::from_ratio(2, 3).raw, 2863311531);
    assert_eq!(Scalar::from_ratio(1, 3).raw, 1431655765);
    assert_eq!(Scalar::from_ratio(5, 0).raw, i64::MAX);
    assert_eq!(Scalar::from_ratio(-5, 0).raw, i64::MIN);
    assert_eq!(Scalar::from_ratio(0, 0).raw, 0);
    assert_eq!(Scalar::from_raw(17).raw, 17);
    assert_eq!(Scalar::zero().raw, 0);
    assert_eq!(Scalar::one().raw, ONE_RAW);
    assert_eq!(Scalar::epsilon().raw, EPSILON_RAW);
    assert_eq!(Scalar::epsilon(), s(0.00001));
}

#[test]
fn sums_and_differences_are_clamped() {
    let big = Scalar { raw: i64::MAX };
    let small = Scalar { raw: i64::MIN };

    assert_eq!(s(1.5).add(s(2.25)), s(3.75));
    assert_eq!(s(1.5).sub(s(2.25)), s(-0.75));
    assert_eq!(big.add(s(1.0)), big);
    assert_eq!(small.sub(s(1.0)), small);
    assert_eq!(small.neg(), big);
    assert_eq!(big.neg().raw, -i64::MAX);
    assert_eq!(small.abs(), big);
    assert_eq!(s(-2.5).abs(), s(2.5));
    assert_eq!(s(2.5).abs(), s(2.5));
}

#[test]
fn products_and_quotients_round_toward_zero() {
    assert_eq!(s(1.5).mul(s(2.5)), s(3.75));
    assert_eq!(s(-1.5).mul(s(2.5)), s(-3.75));
    assert_eq!(Scalar { raw: 3 }.mul(s(0.5)).raw, 1);
    assert_eq!(Scalar { raw: -3 }.mul(s(0.5)).raw, -1);
    assert_eq!(s(100000.0).mul(s(100000.0)).raw, i64::MAX);
    assert_eq!(s(100000.0).mul(s(-100000.0)).raw, i64::MIN);
    assert_eq!(s(7.5).div(s(2.5)), s(3.0));
    assert_eq!(s(1.0).div(s(3.0)).raw, 1431655765);
    assert_eq!(s(-1.0).div(s(3.0)).raw, -1431655765);
    assert_eq!(s(1.0).div(s(-3.0)).raw, -1431655765);
    assert_eq!(s(1.0).div(s(0.0)).raw, i64::MAX);
    assert_eq!(s(-1.0).div(s(0.0)).raw, i64::MIN);
    assert_eq!(s(0.0).div(s(0.0)).raw, 0);
    assert_eq!(s(7.0).div_int(2), s(3.5));
    assert_eq!(Scalar { raw: -7 }.div_int(2).raw, -3);
}

#[test]
fn square_roots_round_down() {
    assert_eq!(s(4.0).sqrt(), s(2.0));
    assert_eq!(s(0.25).sqrt(), s(0.5));
    assert_eq!(s(0.0).sqrt(), s(0.0));
    assert_eq!(s(-4.0).sqrt(), s(0.0));
    assert_eq!(s(2.0).sqrt().raw, 6074000999);
    assert_eq!(Scalar { raw: i64::MAX }.sqrt().raw, 199032864766430);
    let root = s(14.0).sqrt().raw as i128;
    assert!(root * root <= (14i128 << 64));
    assert!((root + 1) * (root + 1) > (14i128 << 64));
}

#[test]
fn rounding_down_to_whole_numbers() {
    assert_eq!(s(2.75).floor(), s(2.0));
    assert_eq!(s(-2.75).floor(), s(-3.0));
    assert_eq!(s(-2.0).floor(), s(-2.0));
    assert_eq!(s(2.0).floor(), s(2.0));
    assert_eq!(s(2.75).floor_int(), 2);
    assert_eq!(s(-0.25).floor_int(), -1);
    assert_eq!(Scalar { raw: i64::MIN }.floor_int(), -2147483648);
    assert_eq!(Scalar { raw: i64::MAX }.floor_int(), 2147483647);
    assert!(s(2.75).floor_is_even());
    assert!(!s(1.0).floor_is_even());
    assert!(!s(-0.1).floor_is_even());
    assert!(s(-1.1).floor_is_even());
    assert_eq!(s(2.75).to_index(), 2);
    assert_eq!(s(-2.75).to_index(), 0);
    assert_eq!(s(0.99).to_index(), 0);
}

#[test]
fn order_and_tolerant_equality() {
    assert!(s(1.0).lt(s(1.5)));
    assert!(!s(1.5).lt(s(1.5)));
    assert!(s(1.5).le(s(1.5)));
    assert!(s(0.0).is_zero());
    assert!(!s(0.1).is_zero());
    assert!(s(-0.1).is_negative());
    assert!(!s(0.0).is_negative());
    assert!(s(1.0).approx_eq(s(1.000009)));
    assert!(s(1.0).approx_eq(s(0.999991)));
    assert!(!s(1.0).approx_eq(s(1.00001)));
    assert!(!s(1.0).approx_eq(s(0.99999)));
    assert!(!Scalar { raw: i64::MAX }.approx_eq(Scalar { raw: i64::MIN }));
    assert_eq!(zero_if_trivial(s(0.000009)), s(0.0));
    assert_eq!(zero_if_trivial(s(-0.000009)), s(0.0));
    assert_eq!(zero_if_trivial(s(0.00001)), s(0.00001));
    assert_eq!(zero_if_trivial(s(-3.0)), s(-3.0));
}

#[test]
fn sines_and_cosines() {
    assert_eq!(s(0.0).sin(), s(0.0));
    assert!(near(s(PI / 2.0).sin(), 1.0, 1e-8));
    assert!(near(s(PI / 6.0).sin(), 0.5, 1e-8));
    assert!(near(s(-PI / 6.0).sin(), -0.5, 1e-8));
    assert!(near(s(PI).sin(), 0.0, 1e-8));
    assert!(near(s(0.0).cos(), 1.0, 1e-8));
    assert!(near(s(PI / 3.0).cos(), 0.5, 1e-8));
    assert!(near(s(PI).cos(), -1.0, 1e-8));
    assert!(near(s(PI / 4.0).tan(), 1.0, 1e-8));
    assert!(near(Scalar::pi(), PI, 1e-9));
    let mut x = -20.0;
    while x < 20.0 {
        assert!(near(s(x).sin(), x.sin(), 1e-8));
        assert!(near(s(x).cos(), x.cos(), 1e-8));
        x += 0.37;
    }
}

#[test]
fn logarithms_exponentials_and_powers() {
    assert_eq!(s(1.0).ln(), s(0.0));
    assert_eq!(s(0.0).exp(), s(1.0));
    assert_eq!(s(0.0).ln().raw, i64::MIN);
    assert_eq!(s(-1.0).ln().raw, i64::MIN);
    assert_eq!(s(23.0).exp().raw, i64::MAX);
    assert_eq!(s(-24.0).exp().raw, 0);
    assert!(near(s(2.0).ln(), 2.0_f64.ln(), 1e-8));
    assert!(near(s(0.001).ln(), 0.001_f64.ln(), 1e-6));
    assert!(near(s(1000.0).ln(), 1000.0_f64.ln(), 1e-8));
    assert!(near(s(1.0).exp(), 1.0_f64.exp(), 1e-8));
    assert!(near(s(-3.5).exp(), (-3.5_f64).exp(), 1e-8));
    assert!(near(s(10.0).exp(), 10.0_f64.exp(), 1e-3));
    assert_eq!(s(1.0).powf(s(200.0)), s(1.0));
    assert_eq!(s(0.0).powf(s(2.0)), s(0.0));
    assert_eq!(s(-2.0).powf(s(2.0)), s(0.0));
    assert_eq!(s(0.7).powf(s(0.0)), s(1.0));
    assert!(near(s(0.5).powf(s(2.0)), 0.25, 1e-8));
    assert!(near(s(0.99).powf(s(200.0)), 0.99_f64.powf(200.0), 1e-6));
    assert!(near(s(0.7071).powf(s(200.0)), 0.0, 1e-9));
    assert!(near(s(2.0).powf(s(0.5)), 2.0_f64.sqrt(), 1e-8));
    assert!(near(s(3.0).powf(s(4.0)), 81.0, 1e-6));
}
