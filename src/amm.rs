use crate::errors::Error;
use vstd::arithmetic::div_mod::{lemma_div_is_ordered, lemma_fundamental_div_mod};
use vstd::prelude::*;

verus! {

/// The share of every swap input that reaches the constant-product formula,
/// in thousandths: a 0.3% fee stays in the pool.
pub const SWAP_FEE_NUMERATOR: u128 = 997;

/// Denominator of `SWAP_FEE_NUMERATOR`.
pub const SWAP_FEE_DENOMINATOR: u128 = 1000;

/// Market-wide settings.
#[derive(Debug, Clone, Copy, PartialEq, Eq, Structural)]
pub struct AMMConfig {
    pub protocol_fee: u64,
    pub min_sol_balance: u64,
}

impl AMMConfig {
    /// The settings the market runs with: a protocol fee of 10 and a minimum
    /// reserve of one whole unit of currency.
    pub fn standard() -> (r: AMMConfig)
        ensures
            r.protocol_fee == 10,
            r.min_sol_balance == 1_000_000_000,
    {
        AMMConfig { protocol_fee: 10, min_sol_balance: 1_000_000_000 }
    }
}

/// The operations a market can switch on and off.
#[derive(Debug, Clone, Copy, PartialEq, Eq, Structural)]
pub enum PoolStatusBitIndex {
    Deposit,
    Withdraw,
    Swap,
}

/// Whether an operation is switched on.
#[derive(Debug, Clone, Copy, PartialEq, Eq, Structural)]
pub enum PoolStatusBitFlag {
    Enable,
    Disable,
}

/// A constant-product market between the reserve currency and the token, with
/// the outstanding LP shares that claim it.
#[derive(Debug, Clone, Copy, PartialEq, Eq, Structural)]
pub struct AMMPool {
    pub reserve_balance: u64,
    pub token_balance: u64,
    pub lp_supply: u64,
}

impl AMMPool {
    /// Either the pool is empty, or shares are outstanding and both reserves
    /// hold something.
    pub open spec fn wf(self) -> bool {
        (self.lp_supply == 0 && self.reserve_balance == 0 && self.token_balance == 0) || (
        self.lp_supply > 0 && self.reserve_balance > 0 && self.token_balance > 0)
    }

    /// The product of the two reserves.
    pub open spec fn product(self) -> int {
        self.reserve_balance * self.token_balance
    }

    /// Whether the pool satisfies `wf`; hosts test this on stored records
    /// before handing them to the operations below.
    pub fn is_well_formed(&self) -> (r: bool)
        ensures
            r == self.wf(),
    {
        (self.lp_supply == 0 && self.reserve_balance == 0 && self.token_balance == 0) || (
        self.lp_supply > 0 && self.reserve_balance > 0 && self.token_balance > 0)
    }

    /// An empty pool, awaiting its first deposit.
    pub fn new() -> (r: AMMPool)
        ensures
            r.wf(),
            r.reserve_balance == 0 && r.token_balance == 0 && r.lp_supply == 0,
    {
        AMMPool { reserve_balance: 0, token_balance: 0, lp_supply: 0 }
    }
}

/// The input left after the fee, rounded down in the pool's favour.
pub open spec fn effective_input(amount_in: int) -> int {
    amount_in * (SWAP_FEE_NUMERATOR as int) / (SWAP_FEE_DENOMINATOR as int)
}

/// The constant-product output for `amount_in` against reserves `rin`
/// (input side) and `rout` (output side), rounded down.
pub open spec fn swap_output(amount_in: int, rin: int, rout: int) -> int {
    effective_input(amount_in) * rout / (rin + effective_input(amount_in))
}

/// The output is below the output reserve, and the reserves' product grows
/// strictly once the full input is added and the output taken.
pub proof fn lemma_swap_output_bounds(amount_in: int, rin: int, rout: int)
    requires
        amount_in > 0,
        rin > 0,
        rout > 0,
    ensures
        0 <= swap_output(amount_in, rin, rout) < rout,
        (rin + amount_in) * (rout - swap_output(amount_in, rin, rout)) > rin * rout,
{
    let e = effective_input(amount_in);
    assert(0 <= e < amount_in) by {
        lemma_div_is_ordered(0, amount_in * 997, 1000);
        assert(amount_in * 997 < amount_in * 1000);
        lemma_fundamental_div_mod(amount_in * 997, 1000);
    }
    let den = rin + e;
    let num = e * rout;
    let out = num / den;
    lemma_fundamental_div_mod(num, den);
    assert(num >= 0) by (nonlinear_arith)
        requires num == e * rout, e >= 0, rout > 0;
    assert(out >= 0) by {
        lemma_div_is_ordered(0, num, den);
    }
    assert(den * out <= num);
    assert(out < rout) by (nonlinear_arith)
        requires den * out <= num, num == e * rout, den == rin + e, rin > 0, rout > 0, e >= 0,
            out >= 0;
    assert((rin + amount_in) * (rout - out) > rin * rout) by (nonlinear_arith)
        requires den * out <= e * rout, den == rin + e, e < amount_in, out < rout, out >= 0, rin
            > 0, e >= 0;
}

/// Applies the constant-product formula with the fee taken from the input:
/// returns the output, the new currency reserve and the new token reserve.
/// The whole input, fee included, joins the input reserve.
pub fn calculate_swap(
    amount_in: u128,
    current_sol_balance: u128,
    current_token_balance: u128,
    is_sol_to_token: bool,
) -> (r: (u128, u128, u128))
    requires
        amount_in <= u64::MAX,
        0 < current_sol_balance <= u64::MAX,
        0 < current_token_balance <= u64::MAX,
    ensures
        is_sol_to_token ==> r.0 == swap_output(
            amount_in as int,
            current_sol_balance as int,
            current_token_balance as int,
        ) && r.0 < current_token_balance && r.1 == current_sol_balance + amount_in && r.2
            == current_token_balance - r.0,
        !is_sol_to_token ==> r.0 == swap_output(
            amount_in as int,
            current_token_balance as int,
            current_sol_balance as int,
        ) && r.0 < current_sol_balance && r.1 == current_sol_balance - r.0 && r.2
            == current_token_balance + amount_in,
{
    let (rin, rout) = if is_sol_to_token {
        (current_sol_balance, current_token_balance)
    } else {
        (current_token_balance, current_sol_balance)
    };
    let effective = amount_in * SWAP_FEE_NUMERATOR / SWAP_FEE_DENOMINATOR;
    proof {
        lemma_div_is_ordered(amount_in * 997, amount_in * 1000, 1000);
        assert(amount_in * 1000 / 1000 == amount_in as int);
        assert(effective * rout <= u128::MAX) by (nonlinear_arith)
            requires effective <= u64::MAX, rout <= u64::MAX;
    }
    let amount_out = (effective * rout) / (rin + effective);
    proof {
        if amount_in > 0 {
            lemma_swap_output_bounds(amount_in as int, rin as int, rout as int);
        } else {
            assert(effective == 0);
            assert(0 * rout == 0) by (nonlinear_arith);
        }
    }
    if is_sol_to_token {
        (amount_out, current_sol_balance + amount_in, current_token_balance - amount_out)
    } else {
        (amount_out, current_sol_balance - amount_out, current_token_balance + amount_in)
    }
}

/// What a swap returns: the output and the two new reserves (currency,
/// token), or the error that refuses it.
pub open spec fn swap_spec(pool: AMMPool, amount_in: u64, is_sol_to_token: bool) -> Result<
    (u64, u64, u64),
    Error,
> {
    let rin = if is_sol_to_token {
        pool.reserve_balance
    } else {
        pool.token_balance
    };
    let rout = if is_sol_to_token {
        pool.token_balance
    } else {
        pool.reserve_balance
    };
    let out = swap_output(amount_in as int, rin as int, rout as int);
    if amount_in == 0 {
        Err(Error::InvalidAmount)
    } else if pool.reserve_balance == 0 || pool.token_balance == 0 {
        Err(Error::InsufficientLiquidity)
    } else if rin + amount_in > u64::MAX {
        Err(Error::Overflow)
    } else if is_sol_to_token {
        Ok((out as u64, (rin + amount_in) as u64, (rout - out) as u64))
    } else {
        Ok((out as u64, (rout - out) as u64, (rin + amount_in) as u64))
    }
}

/// Trades `amount_in` of one side of the pool for the other: currency for
/// tokens when `is_sol_to_token`, tokens for currency otherwise. Returns the
/// output and the new currency and token reserves, which the pool then holds.
pub fn swap(pool: &mut AMMPool, amount_in: u64, is_sol_to_token: bool) -> (r: Result<
    (u64, u64, u64),
    Error,
>)
    requires
        old(pool).wf(),
    ensures
        r == swap_spec(*old(pool), amount_in, is_sol_to_token),
        r is Ok ==> *final(pool) == (AMMPool {
            reserve_balance: r->Ok_0.1,
            token_balance: r->Ok_0.2,
            lp_supply: old(pool).lp_supply,
        }),
        r is Err ==> *final(pool) == *old(pool),
        r is Ok && is_sol_to_token ==> r->Ok_0.0 < old(pool).token_balance,
        r is Ok && !is_sol_to_token ==> r->Ok_0.0 < old(pool).reserve_balance,
        r is Ok ==> final(pool).product() > old(pool).product(),
        final(pool).wf(),
{
    if amount_in == 0 {
        return Err(Error::InvalidAmount);
    }
    if pool.reserve_balance == 0 || pool.token_balance == 0 {
        return Err(Error::InsufficientLiquidity);
    }
    let rin = if is_sol_to_token {
        pool.reserve_balance
    } else {
        pool.token_balance
    };
    if rin > u64::MAX - amount_in {
        return Err(Error::Overflow);
    }
    let (amount_out, new_sol, new_token) = calculate_swap(
        amount_in as u128,
        pool.reserve_balance as u128,
        pool.token_balance as u128,
        is_sol_to_token,
    );
    proof {
        if is_sol_to_token {
            lemma_swap_output_bounds(
                amount_in as int,
                pool.reserve_balance as int,
                pool.token_balance as int,
            );
        } else {
            lemma_swap_output_bounds(
                amount_in as int,
                pool.token_balance as int,
                pool.reserve_balance as int,
            );
            assert(new_sol * new_token == new_token * new_sol) by (nonlinear_arith);
            assert(pool.reserve_balance * pool.token_balance == pool.token_balance
                * pool.reserve_balance) by (nonlinear_arith);
        }
    }
    pool.reserve_balance = new_sol as u64;
    pool.token_balance = new_token as u64;
    Ok((amount_out as u64, new_sol as u64, new_token as u64))
}

/// LP shares for a deposit: the currency deposited when the pool is empty,
/// otherwise the smaller of the two proportional shares, each rounded down.
pub open spec fn lp_for_deposit(pool: AMMPool, reserve_in: u64, token_in: u64) -> int {
    if pool.lp_supply == 0 {
        reserve_in as int
    } else {
        let by_reserve = reserve_in * pool.lp_supply / (pool.reserve_balance as int);
        let by_token = token_in * pool.lp_supply / (pool.token_balance as int);
        if by_reserve <= by_token {
            by_reserve
        } else {
            by_token
        }
    }
}

/// The LP shares a deposit mints, or the error that refuses it.
pub open spec fn add_liquidity_spec(pool: AMMPool, reserve_in: u64, token_in: u64) -> Result<
    u64,
    Error,
> {
    if reserve_in == 0 || token_in == 0 {
        Err(Error::InvalidAmount)
    } else if pool.reserve_balance + reserve_in > u64::MAX || pool.token_balance + token_in
        > u64::MAX || pool.lp_supply + lp_for_deposit(pool, reserve_in, token_in) > u64::MAX {
        Err(Error::Overflow)
    } else {
        Ok(lp_for_deposit(pool, reserve_in, token_in) as u64)
    }
}

/// The pool after a deposit that minted `minted` shares.
pub open spec fn pool_after_add(pool: AMMPool, reserve_in: u64, token_in: u64, minted: u64) -> AMMPool {
    AMMPool {
        reserve_balance: (pool.reserve_balance + reserve_in) as u64,
        token_balance: (pool.token_balance + token_in) as u64,
        lp_supply: (pool.lp_supply + minted) as u64,
    }
}

/// Deposits `reserve_in` currency and `token_in` tokens and returns the LP
/// shares minted for them. Both reserves grow by exactly the amounts given.
pub fn add_liquidity(pool: &mut AMMPool, reserve_in: u64, token_in: u64) -> (r: Result<u64, Error>)
    requires
        old(pool).wf(),
    ensures
        r == add_liquidity_spec(*old(pool), reserve_in, token_in),
        r is Ok ==> *final(pool) == pool_after_add(*old(pool), reserve_in, token_in, r->Ok_0),
        r is Err ==> *final(pool) == *old(pool),
        final(pool).wf(),
{
    if reserve_in == 0 || token_in == 0 {
        return Err(Error::InvalidAmount);
    }
    if pool.reserve_balance > u64::MAX - reserve_in || pool.token_balance > u64::MAX - token_in {
        return Err(Error::Overflow);
    }
    let minted: u128 = if pool.lp_supply == 0 {
        reserve_in as u128
    } else {
        let lp = pool.lp_supply as u128;
        proof {
            assert(reserve_in * lp <= u128::MAX && token_in * lp <= u128::MAX) by (nonlinear_arith)
                requires reserve_in <= u64::MAX, token_in <= u64::MAX, lp <= u64::MAX;
        }
        let by_reserve = (reserve_in as u128) * lp / (pool.reserve_balance as u128);
        let by_token = (token_in as u128) * lp / (pool.token_balance as u128);
        if by_reserve <= by_token {
            by_reserve
        } else {
            by_token
        }
    };
    if minted > (u64::MAX - pool.lp_supply) as u128 {
        return Err(Error::Overflow);
    }
    pool.reserve_balance = pool.reserve_balance + reserve_in;
    pool.token_balance = pool.token_balance + token_in;
    pool.lp_supply = pool.lp_supply + minted as u64;
    Ok(minted as u64)
}

/// What burning `lp_burn` shares pays out, currency then tokens, or the error
/// that refuses it.
pub open spec fn remove_liquidity_spec(pool: AMMPool, lp_burn: u64) -> Result<(u64, u64), Error> {
    if lp_burn == 0 {
        Err(Error::InvalidAmount)
    } else if lp_burn > pool.lp_supply {
        Err(Error::InsufficientBalance)
    } else {
        Ok(
            (
                (pool.reserve_balance * lp_burn / (pool.lp_supply as int)) as u64,
                (pool.token_balance * lp_burn / (pool.lp_supply as int)) as u64,
            ),
        )
    }
}

/// The pool after `lp_burn` shares were redeemed for `out`.
pub open spec fn pool_after_remove(pool: AMMPool, lp_burn: u64, out: (u64, u64)) -> AMMPool {
    AMMPool {
        reserve_balance: (pool.reserve_balance - out.0) as u64,
        token_balance: (pool.token_balance - out.1) as u64,
        lp_supply: (pool.lp_supply - lp_burn) as u64,
    }
}

/// `x * part / whole` rounded down is at most `x`, and below it when `part`
/// is below `whole` and `x` is positive.
proof fn lemma_share_bound(x: int, part: int, whole: int)
    requires
        0 <= x,
        0 < part <= whole,
    ensures
        0 <= x * part / whole <= x,
        part < whole && x > 0 ==> x * part / whole < x,
        part == whole ==> x * part / whole == x,
{
    assert(0 <= x * part <= x * whole) by (nonlinear_arith)
        requires 0 <= x, 0 < part <= whole;
    lemma_div_is_ordered(0, x * part, whole);
    lemma_div_is_ordered(x * part, x * whole, whole);
    vstd::arithmetic::div_mod::lemma_div_by_multiple(x, whole);
    if part < whole && x > 0 {
        let q = x * part / whole;
        lemma_fundamental_div_mod(x * part, whole);
        assert(x * part < x * whole) by (nonlinear_arith)
            requires x > 0, part < whole;
        assert(q < x) by (nonlinear_arith)
            requires whole * q <= x * part, x * part < x * whole, whole > 0;
    }
    if part == whole {
        assert(x * part == whole * x) by (nonlinear_arith) requires part == whole;
    }
}

/// Burns `lp_burn` shares and returns the currency and tokens they redeem,
/// each the proportional share of its reserve rounded down.
pub fn remove_liquidity(pool: &mut AMMPool, lp_burn: u64) -> (r: Result<(u64, u64), Error>)
    requires
        old(pool).wf(),
    ensures
        r == remove_liquidity_spec(*old(pool), lp_burn),
        r is Ok ==> *final(pool) == pool_after_remove(*old(pool), lp_burn, r->Ok_0),
        r is Ok ==> r->Ok_0.0 <= old(pool).reserve_balance && r->Ok_0.1
            <= old(pool).token_balance,
        r is Err ==> *final(pool) == *old(pool),
        final(pool).wf(),
{
    if lp_burn == 0 {
        return Err(Error::InvalidAmount);
    }
    if lp_burn > pool.lp_supply {
        return Err(Error::InsufficientBalance);
    }
    let lp = pool.lp_supply as u128;
    proof {
        lemma_share_bound(pool.reserve_balance as int, lp_burn as int, lp as int);
        lemma_share_bound(pool.token_balance as int, lp_burn as int, lp as int);
        assert(pool.reserve_balance * lp_burn <= u128::MAX && pool.token_balance * lp_burn
            <= u128::MAX) by (nonlinear_arith)
            requires pool.reserve_balance <= u64::MAX, pool.token_balance <= u64::MAX, lp_burn
                <= u64::MAX;
    }
    let reserve_out = ((pool.reserve_balance as u128) * (lp_burn as u128) / lp) as u64;
    let token_out = ((pool.token_balance as u128) * (lp_burn as u128) / lp) as u64;
    pool.reserve_balance = pool.reserve_balance - reserve_out;
    pool.token_balance = pool.token_balance - token_out;
    pool.lp_supply = pool.lp_supply - lp_burn;
    Ok((reserve_out, token_out))
}

/// Depositing and then at once redeeming the shares that the deposit minted
/// never pays out more currency or more tokens than were deposited.
pub proof fn lemma_add_then_remove_never_more(pool: AMMPool, reserve_in: u64, token_in: u64)
    requires
        pool.wf(),
        add_liquidity_spec(pool, reserve_in, token_in) is Ok,
        add_liquidity_spec(pool, reserve_in, token_in)->Ok_0 > 0,
    ensures
        ({
            let minted = add_liquidity_spec(pool, reserve_in, token_in)->Ok_0;
            let after = pool_after_add(pool, reserve_in, token_in, minted);
            let out = remove_liquidity_spec(after, minted);
            out is Ok && out->Ok_0.0 <= reserve_in && out->Ok_0.1 <= token_in
        }),
{
    let m = add_liquidity_spec(pool, reserve_in, token_in)->Ok_0 as int;
    let r = pool.reserve_balance as int;
    let t = pool.token_balance as int;
    let l = pool.lp_supply as int;
    let ri = reserve_in as int;
    let ti = token_in as int;
    if l == 0 {
        lemma_share_bound(ri, m, m);
        lemma_share_bound(ti, m, m);
    } else {
        lemma_fundamental_div_mod(ri * l, r);
        lemma_fundamental_div_mod(ti * l, t);
        assert(m * r <= ri * l) by (nonlinear_arith)
            requires m <= (ri * l) / r, r * ((ri * l) / r) <= ri * l, r > 0;
        assert(m * t <= ti * l) by (nonlinear_arith)
            requires m <= (ti * l) / t, t * ((ti * l) / t) <= ti * l, t > 0;
        assert((r + ri) * m <= ri * (l + m)) by (nonlinear_arith)
            requires m * r <= ri * l;
        assert((t + ti) * m <= ti * (l + m)) by (nonlinear_arith)
            requires m * t <= ti * l;
        lemma_div_is_ordered((r + ri) * m, ri * (l + m), l + m);
        lemma_div_is_ordered((t + ti) * m, ti * (l + m), l + m);
        vstd::arithmetic::div_mod::lemma_div_by_multiple(ri, l + m);
        vstd::arithmetic::div_mod::lemma_div_by_multiple(ti, l + m);
        assert(ri * (l + m) == (l + m) * ri) by (nonlinear_arith);
        assert(ti * (l + m) == (l + m) * ti) by (nonlinear_arith);
    }
}

} // verus!
