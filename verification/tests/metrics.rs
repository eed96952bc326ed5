use peg_metrics::asset::Asset;
use peg_metrics::metrics::{
    liquidity, liquidity_quoted, normalize_balance, pooled_supply, price,
    protocol_owned_liquidity_share, sum_balances, MetricError, PoolPosition,
};
use peg_metrics::rational::Rational;

fn as_f64(r: &Rational) -> f64 {
    r.num as f64 / r.den as f64
}

#[test]
fn normalize_eighteen_decimals() {
    // raw 2_500_000_000_000_000_000 at 18 decimals is exactly 2.5
    let r = normalize_balance(2_500_000_000_000_000_000, 18).unwrap();
    assert_eq!(r.num, 2_500_000_000_000_000_000);
    assert_eq!(r.den, 1_000_000_000_000_000_000);
    assert_eq!(as_f64(&r), 2.5);
}

#[test]
fn normalize_rejects_unrepresentable_precision() {
    assert_eq!(normalize_balance(1, 50), Err(MetricError::Overflow));
}

#[test]
fn sum_of_three_holders() {
    // normalized balances 1.2, 3.4 and 0.0 aggregate to exactly 4.6
    let balances = vec![
        Rational::new(12, 10),
        Rational::new(34, 10),
        Rational::new(0, 1),
    ];
    let r = sum_balances(&balances).unwrap();
    assert_eq!(r.num, 460);
    assert_eq!(r.den, 100);
    assert!((as_f64(&r) - 4.6).abs() < 1e-12);
}

#[test]
fn sum_is_order_independent() {
    let forward = vec![
        Rational::new(12, 10),
        Rational::new(34, 10),
        Rational::new(0, 1),
    ];
    let backward = vec![
        Rational::new(0, 1),
        Rational::new(34, 10),
        Rational::new(12, 10),
    ];
    let a = sum_balances(&forward).unwrap();
    let b = sum_balances(&backward).unwrap();
    // same number either way round
    assert_eq!(a.num * b.den, b.num * a.den);
}

#[test]
fn sum_of_no_holders_is_zero() {
    let r = sum_balances(&Vec::new()).unwrap();
    assert_eq!(r.num, 0);
}

#[test]
fn sum_reports_overflow() {
    let balances = vec![Rational::new(u128::MAX, 1), Rational::new(1, 1)];
    assert_eq!(sum_balances(&balances), Err(MetricError::Overflow));
}

#[test]
fn price_is_exact() {
    let quote = Rational::new(3, 1);
    let base = Rational::new(2, 1);
    let r = price(&quote, &base).unwrap();
    assert_eq!(r.num, 3);
    assert_eq!(r.den, 2);
}

#[test]
fn price_rejects_zero_reserve() {
    let quote = Rational::new(3, 1);
    let base = Rational::new(0, 7);
    assert_eq!(price(&quote, &base), Err(MetricError::DegenerateInput));
}

#[test]
fn prices_are_reciprocal() {
    let a = Rational::new(5, 2);
    let b = Rational::new(731, 250);
    let ab = price(&a, &b).unwrap();
    let ba = price(&b, &a).unwrap();
    let product = ab.checked_mul(&ba).unwrap();
    // the two directions multiply to exactly one
    assert_eq!(product.num, product.den);
    assert!((as_f64(&ab) * as_f64(&ba) - 1.0).abs() < 1e-12);
}

#[test]
fn liquidity_is_two_sided() {
    let hint = Rational::new(3, 2);
    let balance = Rational::new(4, 1);
    let r = liquidity(&hint, &balance).unwrap();
    assert_eq!(r.num, 24);
    assert_eq!(r.den, 2);
    assert_eq!(as_f64(&r), 12.0);
}

#[test]
fn quoted_liquidity_doubles_the_balance() {
    let balance = Rational::new(7, 2);
    let r = liquidity_quoted(&balance).unwrap();
    assert_eq!(r.num, 14);
    assert_eq!(r.den, 2);
}

#[test]
fn pooled_supply_is_normalized_metadata() {
    let asset = Asset::new(
        String::from("2b4c76d0dc16be1c31d4c1dc53bf9b45987fc75c"),
        6,
        String::from("Spooky LP"),
        String::from("spLP"),
        5_000_000,
    );
    let r = pooled_supply(&asset).unwrap();
    assert_eq!(r.num, 5_000_000);
    assert_eq!(r.den, 1_000_000);
    assert_eq!(as_f64(&r), 5.0);
}

#[test]
fn pol_share_is_a_weighted_sum() {
    // liq * held / supply, summed over the two pools:
    // 12 * 3 / 4 = 9, and 10 * 1 / 5 = 2, so 11 in total
    let pools = vec![
        PoolPosition {
            liquidity: Rational::new(12, 1),
            holders_balance: Rational::new(3, 1),
            pooled_supply: Rational::new(4, 1),
        },
        PoolPosition {
            liquidity: Rational::new(10, 1),
            holders_balance: Rational::new(1, 1),
            pooled_supply: Rational::new(5, 1),
        },
    ];
    let r = protocol_owned_liquidity_share(&pools).unwrap();
    assert!((as_f64(&r) - 11.0).abs() < 1e-12);
}

#[test]
fn pol_share_rejects_empty_pool() {
    // a pool whose LP supply is zero is degenerate, not an infinity
    let pools = vec![
        PoolPosition {
            liquidity: Rational::new(12, 1),
            holders_balance: Rational::new(3, 1),
            pooled_supply: Rational::new(4, 1),
        },
        PoolPosition {
            liquidity: Rational::new(10, 1),
            holders_balance: Rational::new(1, 1),
            pooled_supply: Rational::new(0, 1),
        },
    ];
    assert_eq!(
        protocol_owned_liquidity_share(&pools),
        Err(MetricError::DegenerateInput)
    );
}

#[test]
fn pol_share_reports_overflow() {
    let pools = vec![PoolPosition {
        liquidity: Rational::new(u128::MAX, 1),
        holders_balance: Rational::new(3, 1),
        pooled_supply: Rational::new(4, 1),
    }];
    assert_eq!(
        protocol_owned_liquidity_share(&pools),
        Err(MetricError::Overflow)
    );
}
