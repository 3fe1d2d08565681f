use vstd::arithmetic::div_mod::{lemma_fundamental_div_mod, lemma_fundamental_div_mod_converse_div};
use vstd::prelude::*;

verus! {

/// Atomic units in one whole token or one whole unit of currency (nine decimals).
pub const TOKEN_SCALE: u64 = 1_000_000_000;

/// `x / d` rounded to the nearest integer, halves rounding up.
pub open spec fn round_half_up(x: int, d: int) -> int {
    (2 * x + d) / (2 * d)
}

/// `x` itself, but never zero: a zero result is clamped to one atomic unit.
pub open spec fn at_least_one(x: int) -> int {
    if x == 0 {
        1
    } else {
        x
    }
}

/// Divides `x` by `d`, rounding to the nearest integer with halves going up.
pub fn round_half_up_div(x: u128, d: u128) -> (r: u128)
    requires
        d > 0,
    ensures
        r == round_half_up(x as int, d as int),
{
    let q = x / d;
    let rem = x % d;
    proof {
        lemma_fundamental_div_mod(x as int, d as int);
        let xi = x as int;
        let di = d as int;
        if 2 * rem >= d {
            assert(2 * xi + di == 2 * di * (q + 1) + (2 * rem - di)) by (nonlinear_arith)
                requires xi == di * q + rem;
            lemma_fundamental_div_mod_converse_div(2 * xi + di, 2 * di, q + 1, 2 * rem - di);
        } else {
            assert(2 * xi + di == 2 * di * q + (2 * rem + di)) by (nonlinear_arith)
                requires xi == di * q + rem;
            lemma_fundamental_div_mod_converse_div(2 * xi + di, 2 * di, q as int, 2 * rem + di);
        }
    }
    if rem >= d - rem {
        assert(q < u128::MAX) by (nonlinear_arith)
            requires x == d * q + rem, d >= 2, x <= u128::MAX, q >= 0;
        q + 1
    } else {
        q
    }
}

/// The whole units held in `amount` atomic units, the fraction dropped.
pub fn to_whole_units(amount: u64) -> (r: u64)
    ensures
        r == amount / TOKEN_SCALE,
{
    amount / TOKEN_SCALE
}

/// The atomic units in `amount` whole units, or `None` where that exceeds `u64`.
pub fn to_atomic_units(amount: u64) -> (r: Option<u64>)
    ensures
        r == (if amount * TOKEN_SCALE <= u64::MAX {
            Some((amount * TOKEN_SCALE) as u64)
        } else {
            None::<u64>
        }),
{
    amount.checked_mul(TOKEN_SCALE)
}

} // verus!
