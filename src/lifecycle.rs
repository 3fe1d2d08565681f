use crate::amm::AMMPool;
use crate::curve::{quote_spec, PricingCurve};
use crate::errors::Error;
use crate::units::at_least_one;
use vstd::prelude::*;

verus! {

pub const SECONDS_IN_A_HOUR: i64 = 60 * 60;

pub const SECONDS_IN_A_DAY: i64 = SECONDS_IN_A_HOUR * 24;

/// Days a pool runs before its creator may close it.
pub const DAYS_TO_MATURITY: i64 = 2;

/// Seconds after creation at which a short-lived pool may be closed.
pub const TEST_MATURITY_SECONDS: i64 = 3;

/// Reserve balance, in atomic currency units, at which a pool matures and
/// migrates into the market (one whole unit of currency).
pub const REQUIRED_POOL_BALANCE_TO_MATURE: u64 = 1_000_000_000;

/// Longest ticker, in bytes.
pub const MAX_TICKER_LEN: usize = 32;

/// Where a bonding pool stands. It only moves forward:
/// `Active` to `Matured` to `Closed`, or `Active` to `Closed`.
#[derive(Debug, Clone, Copy, PartialEq, Eq, Structural)]
pub enum PoolStatus {
    Active,
    Matured,
    Closed,
}

/// Position of a status in the lifecycle.
pub open spec fn status_rank(s: PoolStatus) -> int {
    match s {
        PoolStatus::Active => 0,
        PoolStatus::Matured => 1,
        PoolStatus::Closed => 2,
    }
}

/// The issue of one token along its bonding curve.
#[derive(Debug, Clone)]
pub struct BondingPool {
    /// Who may close the pool.
    pub creator: [u8; 32],
    /// Uppercase ASCII symbol, fixed at creation.
    pub ticker: String,
    /// The token being issued.
    pub mint: [u8; 32],
    pub status: PoolStatus,
    pub created_at: i64,
    /// From this time on the creator may close the pool; never changes.
    pub maturity_time: i64,
    /// Last marginal price quoted; informational only.
    pub last_token_price: u64,
    /// The curve that prices purchases and sales.
    pub curve: PricingCurve,
}

/// A non-empty run of uppercase ASCII letters.
pub open spec fn is_valid_ticker(s: Seq<char>) -> bool {
    s.len() > 0 && forall|i: int| 0 <= i < s.len() ==> 65 <= (#[trigger] s[i]) as u32 <= 90
}

/// Whether `s` is a non-empty string of uppercase ASCII letters.
pub fn check_valid_ticker(s: &str) -> (r: bool)
    ensures
        r == is_valid_ticker(s@),
{
    let n = s.unicode_len();
    if n == 0 {
        return false;
    }
    let mut i: usize = 0;
    while i < n
        invariant
            n == s@.len(),
            i <= n,
            forall|j: int| 0 <= j < i ==> 65 <= (#[trigger] s@[j]) as u32 <= 90,
        decreases n - i,
    {
        let c = s.get_char(i);
        let v = c as u32;
        if v < 65 || v > 90 {
            return false;
        }
        i = i + 1;
    }
    true
}

/// Whether the reserve has reached the balance at which the pool matures.
pub fn check_if_maturity_amount_reached(pool_balance_lamports: u64) -> (r: bool)
    ensures
        r == (pool_balance_lamports >= REQUIRED_POOL_BALANCE_TO_MATURE),
{
    pool_balance_lamports >= REQUIRED_POOL_BALANCE_TO_MATURE
}

/// Whether `now` has reached `maturity_date`.
pub fn check_if_maturity_time_passed(now: i64, maturity_date: i64) -> (r: bool)
    ensures
        r == (now >= maturity_date),
{
    now >= maturity_date
}

/// The maturity deadline of a pool created at `now`, or `None` where it
/// exceeds `i64`.
pub fn calculate_maturity_time(now: i64) -> (r: Option<i64>)
    ensures
        r == (if now + DAYS_TO_MATURITY * SECONDS_IN_A_DAY <= i64::MAX {
            Some((now + DAYS_TO_MATURITY * SECONDS_IN_A_DAY) as i64)
        } else {
            None::<i64>
        }),
{
    now.checked_add(DAYS_TO_MATURITY * SECONDS_IN_A_DAY)
}

/// A deadline a few seconds after `now`, for short-lived pools, or `None`
/// where it exceeds `i64`.
pub fn calculate_test_time(now: i64) -> (r: Option<i64>)
    ensures
        r == (if now + TEST_MATURITY_SECONDS <= i64::MAX {
            Some((now + TEST_MATURITY_SECONDS) as i64)
        } else {
            None::<i64>
        }),
{
    now.checked_add(TEST_MATURITY_SECONDS)
}

/// Whether two account keys are the same.
fn same_key(a: &[u8; 32], b: &[u8; 32]) -> (r: bool)
    ensures
        r == (a@ == b@),
{
    let mut i: usize = 0;
    while i < 32
        invariant
            i <= 32,
            a@.len() == 32,
            b@.len() == 32,
            forall|j: int| 0 <= j < i ==> a@[j] == b@[j],
        decreases 32 - i,
    {
        if a[i] != b[i] {
            return false;
        }
        i = i + 1;
    }
    assert(a@ =~= b@);
    true
}

/// The error that refuses `initialize_pool`, if any.
pub open spec fn initialize_error(ticker: Seq<char>, now: i64) -> Option<Error> {
    if !is_valid_ticker(ticker) || ticker.len() > MAX_TICKER_LEN {
        Some(Error::InvalidTicker)
    } else if now + DAYS_TO_MATURITY * SECONDS_IN_A_DAY > i64::MAX {
        Some(Error::Overflow)
    } else {
        None
    }
}

/// Creates the bonding pool of `ticker` at time `now`: active, maturing
/// `DAYS_TO_MATURITY` days later, its last price the curve's floor price.
pub fn initialize_pool(
    creator: [u8; 32],
    mint: [u8; 32],
    ticker: &str,
    now: i64,
    curve: PricingCurve,
) -> (r: Result<BondingPool, Error>)
    ensures
        r is Err <==> initialize_error(ticker@, now) is Some,
        r is Err ==> r->Err_0 == initialize_error(ticker@, now)->Some_0,
        r is Ok ==> ({
            let p = r->Ok_0;
            &&& p.creator == creator
            &&& p.mint == mint
            &&& p.ticker@ == ticker@
            &&& p.status == PoolStatus::Active
            &&& p.created_at == now
            &&& p.maturity_time == now + DAYS_TO_MATURITY * SECONDS_IN_A_DAY
            &&& p.last_token_price == at_least_one(curve.c as int)
            &&& p.curve == curve
        }),
{
    if !check_valid_ticker(ticker) || ticker.unicode_len() > MAX_TICKER_LEN {
        return Err(Error::InvalidTicker);
    }
    let maturity_time = match calculate_maturity_time(now) {
        Some(t) => t,
        None => return Err(Error::Overflow),
    };
    let floor = if curve.c == 0 {
        1
    } else {
        curve.c
    };
    Ok(
        BondingPool {
            creator,
            ticker: ticker.to_owned(),
            mint,
            status: PoolStatus::Active,
            created_at: now,
            maturity_time,
            last_token_price: floor,
            curve,
        },
    )
}

/// What a purchase settles: the currency collected into the reserve vault,
/// the marginal price after it, the vault's balance once paid, and the
/// market the pool migrates into when this purchase matures it.
#[derive(Debug, Clone, Copy, PartialEq, Eq, Structural)]
pub struct BuyReceipt {
    pub cost: u64,
    pub price: u64,
    pub new_vault_balance: u64,
    pub migration: Option<AMMPool>,
}

/// The market a pool migrates into: the whole reserve and the circulating
/// supply, with the creator holding LP shares equal to the reserve.
pub open spec fn migrated_market(vault_balance: int, supply: int) -> AMMPool {
    AMMPool {
        reserve_balance: vault_balance as u64,
        token_balance: supply as u64,
        lp_supply: vault_balance as u64,
    }
}

/// What `buy` settles for `amount` tokens at `current_supply` with the
/// reserve vault holding `vault_balance`, or the error that refuses it.
pub open spec fn buy_spec(
    status: PoolStatus,
    curve: PricingCurve,
    current_supply: u64,
    vault_balance: u64,
    amount: u64,
) -> Result<BuyReceipt, Error> {
    let q = quote_spec(curve, current_supply, amount, false);
    let cost = q->Ok_0.0;
    let new_vault = vault_balance + cost;
    let new_supply = current_supply + amount;
    if status != PoolStatus::Active {
        Err(Error::WrongState)
    } else if q is Err {
        Err(q->Err_0)
    } else if new_supply > u64::MAX || new_vault > u64::MAX {
        Err(Error::Overflow)
    } else {
        Ok(
            BuyReceipt {
                cost,
                price: q->Ok_0.1,
                new_vault_balance: new_vault as u64,
                migration: if new_vault >= REQUIRED_POOL_BALANCE_TO_MATURE {
                    Some(migrated_market(new_vault, new_supply))
                } else {
                    None
                },
            },
        )
    }
}

/// Sells `amount` new tokens from the curve. The caller's ledger collects
/// `cost` into the reserve vault and then mints `amount` to the buyer. When
/// the vault then holds at least `REQUIRED_POOL_BALANCE_TO_MATURE`, the pool
/// matures and the receipt carries the market to create.
pub fn buy(pool: &mut BondingPool, current_supply: u64, vault_balance: u64, amount: u64) -> (r:
    Result<BuyReceipt, Error>)
    ensures
        r == buy_spec(old(pool).status, old(pool).curve, current_supply, vault_balance, amount),
        r is Err ==> *final(pool) == *old(pool),
        r is Ok ==> final(pool).last_token_price == r->Ok_0.price,
        r is Ok ==> final(pool).status == (if r->Ok_0.migration is Some {
            PoolStatus::Matured
        } else {
            PoolStatus::Active
        }),
        r is Ok && r->Ok_0.migration is Some ==> r->Ok_0.migration->Some_0.wf(),
        final(pool).creator == old(pool).creator,
        final(pool).ticker == old(pool).ticker,
        final(pool).mint == old(pool).mint,
        final(pool).created_at == old(pool).created_at,
        final(pool).maturity_time == old(pool).maturity_time,
        final(pool).curve == old(pool).curve,
        status_rank(old(pool).status) <= status_rank(final(pool).status),
{
    if pool.status != PoolStatus::Active {
        return Err(Error::WrongState);
    }
    let (cost, price) = match pool.curve.quote(current_supply, amount, false) {
        Ok(q) => q,
        Err(e) => return Err(e),
    };
    if current_supply > u64::MAX - amount || vault_balance > u64::MAX - cost {
        return Err(Error::Overflow);
    }
    let new_vault_balance = vault_balance + cost;
    let migration = if check_if_maturity_amount_reached(new_vault_balance) {
        pool.status = PoolStatus::Matured;
        Some(
            AMMPool {
                reserve_balance: new_vault_balance,
                token_balance: current_supply + amount,
                lp_supply: new_vault_balance,
            },
        )
    } else {
        None
    };
    pool.last_token_price = price;
    Ok(BuyReceipt { cost, price, new_vault_balance, migration })
}

/// What `sell` pays out for `amount` tokens, with the new marginal price, or
/// the error that refuses it.
pub open spec fn sell_spec(
    status: PoolStatus,
    curve: PricingCurve,
    current_supply: u64,
    seller_balance: u64,
    vault_balance: u64,
    amount: u64,
) -> Result<(u64, u64), Error> {
    let q = quote_spec(curve, current_supply, amount, true);
    if status != PoolStatus::Active {
        Err(Error::WrongState)
    } else if amount == 0 {
        Err(Error::InvalidAmount)
    } else if seller_balance < amount {
        Err(Error::InsufficientBalance)
    } else if q is Err {
        Err(q->Err_0)
    } else if q->Ok_0.0 > vault_balance {
        Err(Error::InsufficientReserve)
    } else {
        Ok(q->Ok_0)
    }
}

/// Buys `amount` tokens back into the curve from a seller holding
/// `seller_balance`. The caller's ledger burns the tokens and then pays the
/// returned proceeds out of the reserve vault.
pub fn sell(
    pool: &mut BondingPool,
    current_supply: u64,
    seller_balance: u64,
    vault_balance: u64,
    amount: u64,
) -> (r: Result<(u64, u64), Error>)
    ensures
        r == sell_spec(
            old(pool).status,
            old(pool).curve,
            current_supply,
            seller_balance,
            vault_balance,
            amount,
        ),
        r is Err ==> *final(pool) == *old(pool),
        r is Ok ==> *final(pool) == (BondingPool { last_token_price: r->Ok_0.1, ..*old(pool) }),
{
    if pool.status != PoolStatus::Active {
        return Err(Error::WrongState);
    }
    if amount == 0 {
        return Err(Error::InvalidAmount);
    }
    if seller_balance < amount {
        return Err(Error::InsufficientBalance);
    }
    let (proceeds, price) = match pool.curve.quote(current_supply, amount, true) {
        Ok(q) => q,
        Err(e) => return Err(e),
    };
    if proceeds > vault_balance {
        return Err(Error::InsufficientReserve);
    }
    pool.last_token_price = price;
    Ok((proceeds, price))
}

/// The error that refuses `close`, if any.
pub open spec fn close_error(pool: BondingPool, caller: [u8; 32], now: i64) -> Option<Error> {
    if pool.status == PoolStatus::Closed {
        Some(Error::AlreadyClosed)
    } else if caller@ != pool.creator@ {
        Some(Error::Unauthorized)
    } else if now < pool.maturity_time {
        Some(Error::NotYetMaturable)
    } else {
        None
    }
}

/// Closes the pool at `now` on its creator's request, once the maturity
/// deadline has passed. Returns the reserve to hand back to the creator: the
/// vault's whole balance if the pool never matured, nothing if its reserve
/// went into the market.
pub fn close(pool: &mut BondingPool, caller: &[u8; 32], now: i64, vault_balance: u64) -> (r: Result<
    u64,
    Error,
>)
    ensures
        r is Err <==> close_error(*old(pool), *caller, now) is Some,
        r is Err ==> r->Err_0 == close_error(*old(pool), *caller, now)->Some_0,
        r is Err ==> *final(pool) == *old(pool),
        r is Ok ==> *final(pool) == (BondingPool { status: PoolStatus::Closed, ..*old(pool) }),
        r is Ok ==> r->Ok_0 == (if old(pool).status == PoolStatus::Active {
            vault_balance
        } else {
            0
        }),
{
    if pool.status == PoolStatus::Closed {
        return Err(Error::AlreadyClosed);
    }
    if !same_key(caller, &pool.creator) {
        return Err(Error::Unauthorized);
    }
    if !check_if_maturity_time_passed(now, pool.maturity_time) {
        return Err(Error::NotYetMaturable);
    }
    let refund = if pool.status == PoolStatus::Active {
        vault_balance
    } else {
        0
    };
    pool.status = PoolStatus::Closed;
    Ok(refund)
}

} // verus!
