use softbody::fixed::isqrt;
use softbody::fixed::Fixed;
use softbody::fixed::SCALE;
use softbody::trig::HALF_PI;
use softbody::trig::PI;

fn fx(v: f64) -> Fixed {
    Fixed::from_raw((v * SCALE as f64).round() as i64)
}

fn fl(v: Fixed) -> f64 {
    v.raw as f64 / SCALE as f64
}

#[test]
fn sum_and_difference_saturate() {
    let top = Fixed::from_raw(i64::MAX);
    let bottom = Fixed::from_raw(i64::MIN);
    assert_eq!(top + fx(1.0), top);
    assert_eq!(bottom - fx(1.0), bottom);
    assert_eq!(-bottom, top);
    assert_eq!(fx(1.25) + fx(2.5), fx(3.75));
    assert_eq!(fx(1.25) - fx(2.5), fx(-1.25));
}

#[test]
fn product_rounds_toward_zero() {
    assert_eq!(Fixed::from_raw(3) * fx(0.5), Fixed::from_raw(1));
    assert_eq!(Fixed::from_raw(-3) * fx(0.5), Fixed::from_raw(-1));
    assert_eq!(fx(1.5) * fx(-2.0), fx(-3.0));
    assert_eq!(fx(4.0e9) * fx(4.0e9), Fixed::from_raw(i64::MAX));
    assert_eq!(fx(4.0e9) * fx(-4.0e9), Fixed::from_raw(i64::MIN));
}

#[test]
fn quotient_rounds_toward_zero() {
    assert_eq!(fx(1.0) / fx(3.0), Fixed::from_raw(333_333_333));
    assert_eq!(fx(-1.0) / fx(3.0), Fixed::from_raw(-333_333_333));
    assert_eq!(fx(1.0) / fx(-3.0), Fixed::from_raw(-333_333_333));
    assert_eq!(fx(-7.5) / fx(-2.5), fx(3.0));
}

#[test]
fn quotient_by_zero_saturates() {
    assert_eq!(fx(1.0) / Fixed::zero(), Fixed::from_raw(i64::MAX));
    assert_eq!(fx(-1.0) / Fixed::zero(), Fixed::from_raw(i64::MIN));
    assert_eq!(Fixed::zero() / Fixed::zero(), Fixed::zero());
}

#[test]
fn whole_numbers_and_fractions() {
    assert_eq!(Fixed::from_int(-7), fx(-7.0));
    assert_eq!(Fixed::from_ratio(1, 4), fx(0.25));
    assert_eq!(Fixed::from_ratio(-1, 3), Fixed::from_raw(-333_333_333));
    assert_eq!(Fixed::one(), fx(1.0));
}

#[test]
fn magnitude_smaller_and_larger() {
    assert_eq!(fx(-2.5).abs(), fx(2.5));
    assert_eq!(Fixed::from_raw(i64::MIN).abs(), Fixed::from_raw(i64::MAX));
    assert_eq!(fx(1.0).min(fx(2.0)), fx(1.0));
    assert_eq!(fx(1.0).max(fx(2.0)), fx(2.0));
    assert_eq!(fx(5.0).clamp_to(fx(-1.0), fx(1.0)), fx(1.0));
    assert_eq!(fx(-5.0).clamp_to(fx(-1.0), fx(1.0)), fx(-1.0));
    assert_eq!(fx(0.5).clamp_to(fx(-1.0), fx(1.0)), fx(0.5));
}

#[test]
fn square_root_is_rounded_down() {
    assert_eq!(fx(4.0).sqrt(), fx(2.0));
    assert_eq!(fx(2.0).sqrt(), Fixed::from_raw(1_414_213_562));
    assert_eq!(fx(-1.0).sqrt(), Fixed::zero());
    assert_eq!(Fixed::zero().sqrt(), Fixed::zero());
    assert_eq!(isqrt(0), 0);
    assert_eq!(isqrt(15), 3);
    assert_eq!(isqrt(16), 4);
    assert_eq!(isqrt(u128::MAX), u64::MAX);
}

#[test]
fn sine_and_cosine_are_close() {
    let mut x = -20.0f64;
    while x < 20.0 {
        assert!((fl(fx(x).sin()) - x.sin()).abs() < 1e-8);
        assert!((fl(fx(x).cos()) - x.cos()).abs() < 1e-8);
        x += 0.013;
    }
}

#[test]
fn sine_and_cosine_at_the_axes() {
    assert_eq!(Fixed::zero().sin(), Fixed::zero());
    assert_eq!(Fixed::zero().cos(), Fixed::one());
    assert!((Fixed::from_raw(HALF_PI).sin().raw - SCALE).abs() <= 2);
    assert!(Fixed::from_raw(HALF_PI).cos().raw.abs() <= 2);
    assert!((Fixed::from_raw(PI).cos().raw + SCALE).abs() <= 2);
    assert_eq!(fx(-1.0).sin(), -fx(1.0).sin());
    assert_eq!(fx(-1.0).cos(), fx(1.0).cos());
}

#[test]
fn arctangent_is_close_in_every_quadrant() {
    let mut y = -3.0f64;
    while y < 3.0 {
        let mut x = -3.0f64;
        while x < 3.0 {
            assert!((fl(fx(y).atan2(fx(x))) - y.atan2(x)).abs() < 1e-6);
            x += 0.37;
        }
        y += 0.41;
    }
    assert_eq!(Fixed::zero().atan2(Fixed::zero()), Fixed::zero());
    assert_eq!(Fixed::zero().atan2(fx(-1.0)), Fixed::from_raw(PI));
    assert_eq!(fx(1.0).atan2(Fixed::zero()), Fixed::from_raw(HALF_PI));
}

#[test]
fn arccosine_is_close() {
    let mut w = -1.0f64;
    while w <= 1.0 {
        assert!((fl(fx(w).acos()) - w.acos()).abs() < 1e-4);
        w += 0.01;
    }
    assert_eq!(fx(1.0).acos(), Fixed::zero());
    assert_eq!(fx(7.0).acos(), Fixed::zero());
    assert_eq!(fx(-1.0).acos(), Fixed::from_raw(PI));
}

#[test]
fn a_quarter_turn_in_radians() {
    assert_eq!(Fixed::from_int(90).to_radians(), Fixed::from_raw(HALF_PI));
    assert_eq!(Fixed::from_int(180).to_radians(), Fixed::from_raw(PI));
    assert_eq!(Fixed::zero().to_radians(), Fixed::zero());
}

#[test]
fn sine_is_odd_and_cosine_even() {
    let mut x = 0.0f64;
    while x < 10.0 {
        assert_eq!(fx(-x).sin(), -fx(x).sin());
        assert_eq!(fx(-x).cos(), fx(x).cos());
        x += 0.37;
    }
}
