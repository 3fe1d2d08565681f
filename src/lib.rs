//! Token issuance along a bonding curve, graduating into a constant-product
//! market once the reserve crosses a threshold.
//!
//! The library decides; the host moves funds. Each operation takes the
//! ledger balances it needs as plain values and returns the amounts for the
//! host's ledger to collect, mint, burn or pay out.
pub mod amm;
pub mod bytes;
pub mod curve;
pub mod errors;
pub mod lifecycle;
pub mod units;

pub use amm::{
    add_liquidity, calculate_swap, remove_liquidity, swap, AMMConfig, AMMPool,
    PoolStatusBitFlag, PoolStatusBitIndex,
};
pub use bytes::{fixed_bytes_to_string, string_to_fixed_bytes};
pub use curve::{calculate_price, PricingCurve};
pub use errors::{AmmError, Error};
pub use lifecycle::{
    buy, calculate_maturity_time, calculate_test_time, check_if_maturity_amount_reached,
    check_if_maturity_time_passed, check_valid_ticker, close, initialize_pool, sell, BondingPool,
    BuyReceipt, PoolStatus,
};
pub use units::{to_atomic_units, to_whole_units};
