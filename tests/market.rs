use memetik::{
    add_liquidity, calculate_swap, remove_liquidity, swap, AMMConfig, AMMPool, Error,
};

fn pool(reserve_balance: u64, token_balance: u64, lp_supply: u64) -> AMMPool {
    AMMPool { reserve_balance, token_balance, lp_supply }
}

#[test]
fn bootstrap_deposit_sets_the_reserves() {
    let mut p = AMMPool::new();
    assert_eq!(add_liquidity(&mut p, 1000, 500), Ok(1000));
    assert_eq!(p, pool(1000, 500, 1000));
}

#[test]
fn half_redemption_after_bootstrap() {
    let mut p = AMMPool::new();
    add_liquidity(&mut p, 1000, 500).unwrap();
    assert_eq!(remove_liquidity(&mut p, 500), Ok((500, 250)));
    assert_eq!(p, pool(500, 250, 500));
}

#[test]
fn later_deposit_mints_the_smaller_share() {
    let mut p = pool(1000, 500, 1000);
    // 100·1000/1000 = 100 against 100·1000/500 = 200
    assert_eq!(add_liquidity(&mut p, 100, 100), Ok(100));
    assert_eq!(p, pool(1100, 600, 1100));
}

#[test]
fn deposit_then_redeem_never_pays_more() {
    let mut p = pool(1000, 500, 1000);
    let minted = add_liquidity(&mut p, 100, 100).unwrap();
    let (r, t) = remove_liquidity(&mut p, minted).unwrap();
    assert_eq!((r, t), (100, 54));
    assert!(r <= 100 && t <= 100);
}

#[test]
fn zero_deposit_is_invalid() {
    let mut p = pool(1000, 500, 1000);
    assert_eq!(add_liquidity(&mut p, 0, 10), Err(Error::InvalidAmount));
    assert_eq!(add_liquidity(&mut p, 10, 0), Err(Error::InvalidAmount));
    assert_eq!(p, pool(1000, 500, 1000));
}

#[test]
fn deposit_overflowing_a_reserve_is_refused() {
    let mut p = pool(u64::MAX - 1, 500, 1000);
    assert_eq!(add_liquidity(&mut p, 2, 1), Err(Error::Overflow));
}

#[test]
fn redemption_errors() {
    let mut p = pool(1000, 500, 1000);
    assert_eq!(remove_liquidity(&mut p, 0), Err(Error::InvalidAmount));
    assert_eq!(remove_liquidity(&mut p, 1001), Err(Error::InsufficientBalance));
    assert_eq!(p, pool(1000, 500, 1000));
}

#[test]
fn full_redemption_empties_the_pool() {
    let mut p = pool(1000, 500, 1000);
    assert_eq!(remove_liquidity(&mut p, 1000), Ok((1000, 500)));
    assert_eq!(p, AMMPool::new());
}

#[test]
fn swap_currency_for_tokens() {
    let mut p = pool(1_000_000, 1_000_000, 1_000_000);
    assert_eq!(swap(&mut p, 1000, true), Ok((996, 1_001_000, 999_004)));
    assert_eq!(p, pool(1_001_000, 999_004, 1_000_000));
}

#[test]
fn swap_tokens_for_currency() {
    let mut p = pool(1_000_000, 1_000_000, 1_000_000);
    assert_eq!(swap(&mut p, 1000, false), Ok((996, 999_004, 1_001_000)));
}

#[test]
fn swap_never_drains_and_grows_the_product() {
    let mut p = pool(10, 10, 10);
    let before = 10u128 * 10;
    let (out, r, t) = swap(&mut p, u64::MAX - 10, true).unwrap();
    assert!(out < 10);
    assert!((r as u128) * (t as u128) > before);
}

#[test]
fn swap_errors() {
    let mut empty = AMMPool::new();
    assert_eq!(swap(&mut empty, 10, true), Err(Error::InsufficientLiquidity));
    let mut p = pool(1000, 1000, 1000);
    assert_eq!(swap(&mut p, 0, true), Err(Error::InvalidAmount));
    let mut full = pool(u64::MAX - 5, 1000, 1000);
    assert_eq!(swap(&mut full, 10, true), Err(Error::Overflow));
    assert_eq!(full, pool(u64::MAX - 5, 1000, 1000));
}

#[test]
fn swap_formula_on_raw_reserves() {
    assert_eq!(calculate_swap(1000, 1_000_000, 1_000_000, true), (996, 1_001_000, 999_004));
    assert_eq!(calculate_swap(1000, 2_000_000, 1_000_000, false), (1992, 1_998_008, 1_001_000));
}

#[test]
fn standard_market_settings() {
    let c = AMMConfig::standard();
    assert_eq!((c.protocol_fee, c.min_sol_balance), (10, 1_000_000_000));
}
