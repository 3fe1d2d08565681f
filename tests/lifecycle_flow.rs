use memetik::lifecycle::{DAYS_TO_MATURITY, SECONDS_IN_A_DAY};
use memetik::{
    buy, calculate_maturity_time, calculate_test_time, check_if_maturity_amount_reached,
    check_if_maturity_time_passed, check_valid_ticker, close, initialize_pool, sell, AMMPool,
    BondingPool, Error, PoolStatus, PricingCurve,
};

const CREATOR: [u8; 32] = [7u8; 32];
const OTHER: [u8; 32] = [9u8; 32];
const MINT: [u8; 32] = [1u8; 32];
const NOW: i64 = 1_700_000_000;

fn linear_pool() -> BondingPool {
    initialize_pool(CREATOR, MINT, "ABC", NOW, PricingCurve::linear(1)).unwrap()
}

#[test]
fn ticker_validation() {
    assert!(check_valid_ticker("ABC"));
    assert!(!check_valid_ticker(""));
    assert!(!check_valid_ticker("AbC"));
    assert!(!check_valid_ticker("AB1"));
    assert!(!check_valid_ticker("ÄBC"));
}

#[test]
fn initialize_sets_an_active_pool() {
    let p = initialize_pool(CREATOR, MINT, "ABC", NOW, PricingCurve::quadratic(1, 2, 1000)).unwrap();
    assert_eq!(p.status, PoolStatus::Active);
    assert_eq!(p.ticker, "ABC");
    assert_eq!(p.creator, CREATOR);
    assert_eq!(p.mint, MINT);
    assert_eq!(p.created_at, NOW);
    assert_eq!(p.maturity_time, NOW + 2 * 86_400);
    assert_eq!(p.last_token_price, 1000);
}

#[test]
fn initialize_floor_price_is_at_least_one() {
    assert_eq!(linear_pool().last_token_price, 1);
}

#[test]
fn initialize_rejects_bad_tickers() {
    let curve = PricingCurve::linear(1);
    assert_eq!(initialize_pool(CREATOR, MINT, "abc", NOW, curve).unwrap_err(), Error::InvalidTicker);
    assert_eq!(initialize_pool(CREATOR, MINT, "", NOW, curve).unwrap_err(), Error::InvalidTicker);
    let long = "A".repeat(33);
    assert_eq!(initialize_pool(CREATOR, MINT, &long, NOW, curve).unwrap_err(), Error::InvalidTicker);
    let longest = "A".repeat(32);
    assert!(initialize_pool(CREATOR, MINT, &longest, NOW, curve).is_ok());
}

#[test]
fn initialize_deadline_overflow() {
    let curve = PricingCurve::linear(1);
    assert_eq!(initialize_pool(CREATOR, MINT, "ABC", i64::MAX, curve).unwrap_err(), Error::Overflow);
}

#[test]
fn quadratic_buy_stays_active_below_threshold() {
    let mut p = initialize_pool(CREATOR, MINT, "ABC", NOW, PricingCurve::quadratic(1, 2, 1000)).unwrap();
    let receipt = buy(&mut p, 0, 0, 100).unwrap();
    assert!(receipt.cost >= 100 * 1000);
    assert_eq!(receipt.cost, 443333);
    assert_eq!(receipt.price, 11200);
    assert_eq!(receipt.new_vault_balance, 443333);
    assert_eq!(receipt.migration, None);
    assert_eq!(p.status, PoolStatus::Active);
    assert_eq!(p.last_token_price, 11200);
}

#[test]
fn buy_crossing_threshold_matures_and_migrates() {
    let mut p = linear_pool();
    let receipt = buy(&mut p, 0, 999_999_990, 10).unwrap();
    assert_eq!(receipt.cost, 50);
    assert_eq!(receipt.new_vault_balance, 1_000_000_040);
    assert_eq!(p.status, PoolStatus::Matured);
    assert_eq!(
        receipt.migration,
        Some(AMMPool { reserve_balance: 1_000_000_040, token_balance: 10, lp_supply: 1_000_000_040 })
    );
}

#[test]
fn buy_after_maturity_is_refused() {
    let mut p = linear_pool();
    buy(&mut p, 0, 999_999_990, 10).unwrap();
    assert_eq!(buy(&mut p, 10, 1_000_000_040, 1), Err(Error::WrongState));
    assert_eq!(sell(&mut p, 10, 10, 1_000_000_040, 1), Err(Error::WrongState));
}

#[test]
fn buy_errors() {
    let mut p = linear_pool();
    assert_eq!(buy(&mut p, 0, 0, 0), Err(Error::InvalidAmount));
    assert_eq!(buy(&mut p, 10, u64::MAX, 1), Err(Error::Overflow));
    assert_eq!(buy(&mut p, u64::MAX, 0, 1), Err(Error::Overflow));
    assert_eq!(p.status, PoolStatus::Active);
    assert_eq!(p.last_token_price, 1);
}

#[test]
fn sell_pays_out_and_updates_price() {
    let mut p = linear_pool();
    assert_eq!(sell(&mut p, 10, 10, 50, 10), Ok((50, 1)));
    assert_eq!(p.last_token_price, 1);
    assert_eq!(sell(&mut p, 20, 10, 1000, 10), Ok((150, 10)));
    assert_eq!(p.last_token_price, 10);
}

#[test]
fn sell_errors() {
    let mut p = linear_pool();
    assert_eq!(sell(&mut p, 10, 10, 50, 0), Err(Error::InvalidAmount));
    assert_eq!(sell(&mut p, 10, 5, 50, 6), Err(Error::InsufficientBalance));
    assert_eq!(sell(&mut p, 10, 20, 500, 11), Err(Error::InsufficientSupply));
    assert_eq!(sell(&mut p, 10, 10, 49, 10), Err(Error::InsufficientReserve));
    assert_eq!(p.last_token_price, 1);
}

#[test]
fn close_rules() {
    let mut p = linear_pool();
    let deadline = p.maturity_time;
    assert_eq!(close(&mut p, &CREATOR, deadline - 1, 500), Err(Error::NotYetMaturable));
    assert_eq!(close(&mut p, &OTHER, deadline, 500), Err(Error::Unauthorized));
    assert_eq!(p.status, PoolStatus::Active);
    assert_eq!(close(&mut p, &CREATOR, deadline, 500), Ok(500));
    assert_eq!(p.status, PoolStatus::Closed);
    assert_eq!(close(&mut p, &CREATOR, deadline, 500), Err(Error::AlreadyClosed));
    assert_eq!(buy(&mut p, 0, 0, 1), Err(Error::WrongState));
}

#[test]
fn close_after_migration_returns_nothing() {
    let mut p = linear_pool();
    buy(&mut p, 0, 999_999_990, 10).unwrap();
    let later = p.maturity_time + 5;
    assert_eq!(close(&mut p, &CREATOR, later, 0), Ok(0));
    assert_eq!(p.status, PoolStatus::Closed);
}

#[test]
fn maturity_helpers() {
    assert_eq!(calculate_maturity_time(100), Some(100 + DAYS_TO_MATURITY * SECONDS_IN_A_DAY));
    assert_eq!(calculate_maturity_time(100), Some(172_900));
    assert_eq!(calculate_maturity_time(i64::MAX), None);
    assert_eq!(calculate_test_time(100), Some(103));
    assert!(check_if_maturity_time_passed(5, 5));
    assert!(!check_if_maturity_time_passed(4, 5));
    assert!(!check_if_maturity_amount_reached(999_999_999));
    assert!(check_if_maturity_amount_reached(1_000_000_000));
}
