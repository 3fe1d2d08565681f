use memetik::units::round_half_up_div;
use memetik::{calculate_price, Error, PricingCurve};

#[test]
fn linear_buy_from_zero_costs_half_the_square() {
    assert_eq!(calculate_price(0, 10, false), Ok((50, 10)));
}

#[test]
fn linear_sell_to_zero_clamps_price_to_one() {
    assert_eq!(calculate_price(10, 10, true), Ok((50, 1)));
}

#[test]
fn cost_rounds_half_up() {
    // area 4.5 rounds to 5
    assert_eq!(calculate_price(0, 3, false), Ok((5, 3)));
    // area 1.5 rounds to 2
    assert_eq!(calculate_price(1, 1, false), Ok((2, 2)));
    // area 0.5 rounds to 1
    assert_eq!(calculate_price(0, 1, false), Ok((1, 1)));
}

#[test]
fn zero_cost_and_zero_price_clamp_to_one() {
    let flat = PricingCurve::linear(0);
    assert_eq!(flat.quote(5, 1, false), Ok((1, 1)));
}

#[test]
fn zero_amount_is_invalid() {
    assert_eq!(calculate_price(10, 0, false), Err(Error::InvalidAmount));
    assert_eq!(calculate_price(10, 0, true), Err(Error::InvalidAmount));
}

#[test]
fn selling_beyond_supply_is_refused() {
    assert_eq!(calculate_price(10, 11, true), Err(Error::InsufficientSupply));
}

#[test]
fn purchase_at_the_top_of_the_range_overflows() {
    assert_eq!(calculate_price(u64::MAX, 1, false), Err(Error::Overflow));
}

#[test]
fn buy_then_sell_returns_the_cost() {
    let (buy_cost, buy_price) = calculate_price(1000, 37, false).unwrap();
    assert_eq!((buy_cost, buy_price), (37685, 1037));
    let (sell_proceeds, sell_price) = calculate_price(1037, 37, true).unwrap();
    assert_eq!((sell_proceeds, sell_price), (37685, 1000));
    assert!(sell_proceeds.abs_diff(buy_cost) <= 1);
}

#[test]
fn buy_then_sell_on_quadratic_curve() {
    let curve = PricingCurve::quadratic(3, 7, 11);
    let (buy_cost, _) = curve.quote(12345, 678, false).unwrap();
    let (sell_proceeds, _) = curve.quote(12345 + 678, 678, true).unwrap();
    assert!(sell_proceeds.abs_diff(buy_cost) <= 1);
}

#[test]
fn larger_purchase_leaves_higher_price() {
    let (_, p10) = calculate_price(1000, 10, false).unwrap();
    let (_, p20) = calculate_price(1000, 20, false).unwrap();
    assert_eq!((p10, p20), (1010, 1020));
    assert!(p10 < p20);
}

#[test]
fn larger_sale_leaves_lower_price() {
    let (_, p10) = calculate_price(1000, 10, true).unwrap();
    let (_, p20) = calculate_price(1000, 20, true).unwrap();
    assert_eq!((p10, p20), (990, 980));
    assert!(p20 < p10);
}

#[test]
fn quadratic_purchase_from_zero() {
    let curve = PricingCurve::quadratic(1, 2, 1000);
    // area = (2·100³ + 3·2·100² + 6·1000·100) / 6 = 443333.33…
    assert_eq!(curve.quote(0, 100, false), Ok((443333, 11200)));
}

#[test]
fn quadratic_price_function_is_exact() {
    let curve = PricingCurve::quadratic(1, 2, 1000);
    assert_eq!(curve.price_function(0), Some(1000));
    assert_eq!(curve.price_function(10), Some(1120));
    assert_eq!(curve.price_function(u64::MAX), None);
}

#[test]
fn rounding_helper_rounds_halves_up() {
    assert_eq!(round_half_up_div(5, 2), 3);
    assert_eq!(round_half_up_div(4, 3), 1);
    assert_eq!(round_half_up_div(5, 3), 2);
    assert_eq!(round_half_up_div(u128::MAX, 1), u128::MAX);
}
