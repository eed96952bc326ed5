use peg_metrics::rational::Rational;

#[test]
fn add_is_exact() {
    let a = Rational::new(1, 2);
    let b = Rational::new(1, 3);
    let r = a.checked_add(&b).unwrap();
    assert_eq!(r.num, 5);
    assert_eq!(r.den, 6);
}

#[test]
fn mul_is_exact() {
    let a = Rational::new(2, 3);
    let b = Rational::new(3, 4);
    let r = a.checked_mul(&b).unwrap();
    assert_eq!(r.num, 6);
    assert_eq!(r.den, 12);
}

#[test]
fn div_is_exact() {
    let a = Rational::new(1, 2);
    let b = Rational::new(3, 4);
    let r = a.checked_div(&b).unwrap();
    assert_eq!(r.num, 4);
    assert_eq!(r.den, 6);
}

#[test]
fn add_reports_overflow() {
    let a = Rational::new(u128::MAX, 1);
    let b = Rational::new(1, 1);
    assert!(a.checked_add(&b).is_none());
}

#[test]
fn mul_reports_overflow() {
    let a = Rational::new(u128::MAX, 1);
    let b = Rational::new(2, 1);
    assert!(a.checked_mul(&b).is_none());
}

#[test]
fn compare_is_exact() {
    let a = Rational::new(1, 2);
    let b = Rational::new(2, 3);
    assert!(a.le(&b));
    assert!(!b.le(&a));
    assert!(a.le(&a));
}

#[test]
fn compare_survives_huge_cross_products() {
    // the cross products exceed u128, so the comparison runs double-width
    let a = Rational::new(u128::MAX, 1);
    let b = Rational::new(u128::MAX, 2);
    assert!(!a.le(&b));
    assert!(b.le(&a));
    let c = Rational::new(u128::MAX, 3);
    let d = Rational::new(u128::MAX - 1, 3);
    assert!(d.le(&c));
    assert!(!c.le(&d));
}

#[test]
fn wide_product_splits_exactly() {
    let (hi, lo) = peg_metrics::rational::mul_wide(u128::MAX, u128::MAX);
    // (2^128 - 1)^2 = (2^128 - 2) * 2^128 + 1
    assert_eq!(hi, u128::MAX - 1);
    assert_eq!(lo, 1);
    let (hi2, lo2) = peg_metrics::rational::mul_wide(1 << 64, 1 << 64);
    assert_eq!(hi2, 1);
    assert_eq!(lo2, 0);
    let (hi3, lo3) = peg_metrics::rational::mul_wide(12345, 67890);
    assert_eq!(hi3, 0);
    assert_eq!(lo3, 12345 * 67890);
}

#[test]
fn pow10_fits_up_to_38() {
    assert_eq!(Rational::pow10_checked(0), Some(1));
    assert_eq!(Rational::pow10_checked(6), Some(1_000_000));
    assert_eq!(
        Rational::pow10_checked(38),
        Some(100_000_000_000_000_000_000_000_000_000_000_000_000u128)
    );
    assert_eq!(Rational::pow10_checked(39), None);
}

#[test]
fn from_scaled_round_trips_exactly() {
    // a raw integer amount scaled by 10^6 denotes exactly that fraction
    let r = Rational::from_scaled(1_000_000, 6).unwrap();
    assert_eq!(r.num, 1_000_000);
    assert_eq!(r.den, 1_000_000);
    assert_eq!(r.num as f64 / r.den as f64, 1.0);
}
