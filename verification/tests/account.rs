use stock_backtest::account::{
    average_of, price_cap_of, side_fee_on, tax_on, FEE_FLOOR, VALUE_LIMIT,
};
use stock_backtest::rally::Rally;

#[test]
fn the_value_limit_is_a_third_of_sixty_four_bits() {
    assert_eq!(VALUE_LIMIT, u64::MAX / 3);
}

#[test]
fn price_cap_divides_the_limit_by_the_volume() {
    assert_eq!(price_cap_of(1), VALUE_LIMIT);
    assert_eq!(price_cap_of(500), VALUE_LIMIT / 500);
    assert_eq!(price_cap_of(u64::MAX), 0);
}

#[test]
fn average_rounds_down() {
    assert_eq!(average_of(50_200, 500), 100);
    assert_eq!(average_of(50_000, 500), 100);
    assert_eq!(average_of(50_499, 500), 100);
    assert_eq!(average_of(50_500, 500), 101);
    assert_eq!(average_of(0, 7), 0);
}

#[test]
fn tax_is_a_thousandth_rounded_down() {
    assert_eq!(tax_on(110, 500), 55);
    assert_eq!(tax_on(1, 999), 0);
    assert_eq!(tax_on(1, 1000), 1);
    assert_eq!(tax_on(0, 0), 0);
}

#[test]
fn a_small_trade_pays_the_fee_floor() {
    assert_eq!(FEE_FLOOR, 50_000);
    assert_eq!(side_fee_on(110, 500), 50_000);
    assert_eq!(side_fee_on(0, 0), 50_000);
    assert_eq!(side_fee_on(166_666_666, 1), 50_000);
    assert_eq!(side_fee_on(166_670_000, 1), 50_001);
}

#[test]
fn a_large_trade_pays_three_ten_thousandths() {
    assert_eq!(side_fee_on(1_000_000, 1_000_000), 300_000_000);
    assert_eq!(side_fee_on(VALUE_LIMIT, 1), (VALUE_LIMIT as u128 * 3 / 10_000) as u64);
}

#[test]
fn rally_between_a_price_and_its_low() {
    assert_eq!(Rally::between(103, 100), Rally { rise: 3, base: 100 });
    assert_eq!(Rally::between(100, 100), Rally { rise: 0, base: 100 });
    assert_eq!(Rally::between(0, u64::MAX), Rally { rise: -(u64::MAX as i128), base: u64::MAX });
    assert_eq!(Rally::flat(), Rally { rise: 0, base: 1 });
}

#[test]
fn rally_is_compared_exactly() {
    let three_percent = Rally { rise: 3, base: 100 };
    assert!(three_percent.is_above(2, 100));
    assert!(three_percent.is_above(29, 1000));
    assert!(!three_percent.is_above(3, 100));
    assert!(!three_percent.is_above(30, 1000));
    assert!(!three_percent.is_above(4, 100));
    assert!(three_percent.is_above(-1, 1));
}

#[test]
fn rally_near_the_limits_of_the_types() {
    let huge = Rally { rise: u64::MAX as i128, base: u64::MAX };
    assert!(huge.is_above(i64::MAX, u64::MAX));
    assert!(!huge.is_above(1, 1));
    assert!(huge.is_above(u64::MAX as i64 / 2, u64::MAX));
    let fallen = Rally { rise: -(u64::MAX as i128), base: u64::MAX };
    assert!(!fallen.is_above(-1, 1));
    assert!(fallen.is_above(i64::MIN, 1));
}

#[test]
fn a_flat_rally_exceeds_negative_thresholds_only() {
    assert!(!Rally::flat().is_above(0, 1));
    assert!(!Rally::flat().is_above(1, 1000));
    assert!(Rally::flat().is_above(-1, 1000));
}

#[test]
fn a_negative_rally_against_negative_thresholds() {
    let fallen = Rally { rise: -3, base: 100 };
    assert!(fallen.is_above(-4, 100));
    assert!(!fallen.is_above(-3, 100));
    assert!(!fallen.is_above(-2, 100));
    assert!(!fallen.is_above(0, 1));
}

#[test]
fn a_rise_over_a_low_of_zero_exceeds_everything() {
    let r = Rally { rise: 5, base: 0 };
    assert!(r.is_above(i64::MAX, 1));
    assert!(r.is_above(0, 1));
    let none = Rally { rise: 0, base: 0 };
    assert!(!none.is_above(0, 1));
    assert!(!none.is_above(-5, 1));
}
