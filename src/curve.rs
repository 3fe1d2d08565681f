use crate::errors::Error;
use crate::units::{at_least_one, round_half_up, round_half_up_div};
use vstd::prelude::*;

verus! {

/// A bonding curve `price(n) = a·n² + b·n + c`, where `n` is the total supply
/// in atomic token units and the price is in atomic currency units per atomic
/// token unit. A linear curve has `a == 0` and `c == 0`; `c` is the floor price.
#[derive(Debug, Clone, Copy, PartialEq, Eq, Structural)]
pub struct PricingCurve {
    pub a: u64,
    pub b: u64,
    pub c: u64,
}

/// Slope of the curve that `calculate_price` prices on: one atomic currency
/// unit per atomic token unit of supply.
pub const DEFAULT_SLOPE: u64 = 1;

impl PricingCurve {
    /// The marginal price at supply `n`.
    pub open spec fn price_at(self, n: int) -> int {
        self.a * (n * n) + self.b * n + self.c
    }

    /// Six times the antiderivative of `price_at` that vanishes at zero, which
    /// is an integer: `2a·n³ + 3b·n² + 6c·n`.
    pub open spec fn integral6_at(self, n: int) -> int {
        2 * self.a * (n * n * n) + 3 * self.b * (n * n) + 6 * self.c * n
    }

    /// The price grows with every unit of supply.
    pub open spec fn is_increasing(self) -> bool {
        self.a > 0 || self.b > 0
    }

    /// The curve `price(n) = slope·n`.
    pub fn linear(slope: u64) -> (r: Self)
        ensures
            r == (PricingCurve { a: 0, b: slope, c: 0 }),
    {
        PricingCurve { a: 0, b: slope, c: 0 }
    }

    /// The curve `price(n) = a·n² + b·n + c`.
    pub fn quadratic(a: u64, b: u64, c: u64) -> (r: Self)
        ensures
            r == (PricingCurve { a, b, c }),
    {
        PricingCurve { a, b, c }
    }

    /// The exact marginal price at supply `n`, or `None` where it exceeds `u64`.
    pub fn price_function(&self, n: u64) -> (r: Option<u64>)
        ensures
            r == (if self.price_at(n as int) <= u64::MAX {
                Some(self.price_at(n as int) as u64)
            } else {
                None::<u64>
            }),
    {
        let n128 = n as u128;
        proof {
            assert(n128 * n128 <= u128::MAX) by (nonlinear_arith)
                requires n128 <= u64::MAX;
            assert(self.a * (n128 * n128) >= 0 && self.b * n128 >= 0) by (nonlinear_arith)
                requires self.a >= 0, self.b >= 0, n128 >= 0;
        }
        let n2 = n128 * n128;
        let quad = match (self.a as u128).checked_mul(n2) {
            Some(v) => v,
            None => return None,
        };
        let lin = match (self.b as u128).checked_mul(n128) {
            Some(v) => v,
            None => return None,
        };
        let partial = match quad.checked_add(lin) {
            Some(v) => v,
            None => return None,
        };
        let total = match partial.checked_add(self.c as u128) {
            Some(v) => v,
            None => return None,
        };
        if total > u64::MAX as u128 {
            None
        } else {
            Some(total as u64)
        }
    }

    /// Six times the antiderivative at `n`, or `None` where it exceeds `u128`.
    fn integral6(&self, n: u64) -> (r: Option<u128>)
        ensures
            r == (if self.integral6_at(n as int) <= u128::MAX {
                Some(self.integral6_at(n as int) as u128)
            } else {
                None::<u128>
            }),
    {
        let n128 = n as u128;
        proof {
            assert(n128 * n128 <= u128::MAX) by (nonlinear_arith)
                requires n128 <= u64::MAX;
        }
        let n2 = n128 * n128;
        let two_a = 2 * (self.a as u128);
        let three_b = 3 * (self.b as u128);
        let six_c = 6 * (self.c as u128);
        proof {
            assert(two_a * (n2 * n128) >= 0 && three_b * n2 >= 0 && six_c * n128 >= 0)
                by (nonlinear_arith)
                requires two_a >= 0, three_b >= 0, six_c >= 0, n128 >= 0, n2 >= 0;
            assert(self.integral6_at(n as int) == two_a * (n2 * n128) + three_b * n2 + six_c
                * n128) by (nonlinear_arith)
                requires
                    n2 == n128 * n128,
                    two_a == 2 * self.a,
                    three_b == 3 * self.b,
                    six_c == 6 * self.c,
                    n128 == n,
            ;
        }
        let cubic = if self.a == 0 {
            proof {
                assert(two_a * (n2 * n128) == 0) by (nonlinear_arith)
                    requires two_a == 0;
            }
            0
        } else {
            match n2.checked_mul(n128) {
                Some(n3) => match two_a.checked_mul(n3) {
                    Some(v) => v,
                    None => return None,
                },
                None => {
                    proof {
                        assert(two_a * (n2 * n128) > u128::MAX) by (nonlinear_arith)
                            requires two_a >= 2, n2 * n128 > u128::MAX;
                    }
                    return None;
                },
            }
        };
        let square = match three_b.checked_mul(n2) {
            Some(v) => v,
            None => return None,
        };
        let lin = match six_c.checked_mul(n128) {
            Some(v) => v,
            None => return None,
        };
        let partial = match cubic.checked_add(square) {
            Some(v) => v,
            None => return None,
        };
        partial.checked_add(lin)
    }
}

/// Supply after the trade: a sale cannot go below zero, a purchase saturates
/// at `u64::MAX`.
pub open spec fn new_supply_of(current_supply: u64, amount: u64, is_selling: bool) -> int {
    if is_selling {
        if amount <= current_supply {
            current_supply - amount
        } else {
            0
        }
    } else if current_supply + amount <= u64::MAX {
        current_supply + amount
    } else {
        u64::MAX as int
    }
}

/// The larger of the supplies before and after the trade.
pub open spec fn top_supply_of(current_supply: u64, amount: u64, is_selling: bool) -> int {
    if is_selling {
        current_supply as int
    } else {
        new_supply_of(current_supply, amount, is_selling)
    }
}

/// What a trade costs (or pays out, for a sale): the area under the curve
/// between the two supplies, rounded half up, never zero.
pub open spec fn quote_cost(
    curve: PricingCurve,
    current_supply: u64,
    amount: u64,
    is_selling: bool,
) -> int {
    let n = new_supply_of(current_supply, amount, is_selling);
    let diff = curve.integral6_at(n) - curve.integral6_at(current_supply as int);
    let area6 = if diff >= 0 {
        diff
    } else {
        -diff
    };
    at_least_one(round_half_up(area6, 6))
}

/// The marginal price after the trade, never zero.
pub open spec fn quote_price(
    curve: PricingCurve,
    current_supply: u64,
    amount: u64,
    is_selling: bool,
) -> int {
    at_least_one(curve.price_at(new_supply_of(current_supply, amount, is_selling)))
}

/// The quote for a trade of `amount` tokens at `current_supply`: the cost
/// and the new marginal price, or the error that refuses it.
pub open spec fn quote_spec(
    curve: PricingCurve,
    current_supply: u64,
    amount: u64,
    is_selling: bool,
) -> Result<(u64, u64), Error> {
    let cost = quote_cost(curve, current_supply, amount, is_selling);
    let price = quote_price(curve, current_supply, amount, is_selling);
    if amount == 0 {
        Err(Error::InvalidAmount)
    } else if is_selling && amount > current_supply {
        Err(Error::InsufficientSupply)
    } else if curve.integral6_at(top_supply_of(current_supply, amount, is_selling))
        > u128::MAX || cost > u64::MAX || price > u64::MAX {
        Err(Error::Overflow)
    } else {
        Ok((cost as u64, price as u64))
    }
}

/// The antiderivative never decreases with supply.
pub proof fn lemma_integral6_monotone(curve: PricingCurve, x: int, y: int)
    requires
        0 <= x <= y,
    ensures
        curve.integral6_at(x) <= curve.integral6_at(y),
{
    assert(x * x <= y * y) by (nonlinear_arith)
        requires 0 <= x <= y;
    assert(x * x * x <= y * y * y) by (nonlinear_arith)
        requires 0 <= x <= y, x * x <= y * y;
    assert(2 * curve.a * (x * x * x) <= 2 * curve.a * (y * y * y)) by (nonlinear_arith)
        requires x * x * x <= y * y * y, curve.a >= 0;
    assert(3 * curve.b * (x * x) <= 3 * curve.b * (y * y)) by (nonlinear_arith)
        requires x * x <= y * y, curve.b >= 0;
    assert(6 * curve.c * x <= 6 * curve.c * y) by (nonlinear_arith)
        requires x <= y, curve.c >= 0;
}

impl PricingCurve {
    /// Prices a purchase (`is_selling == false`) or a sale of `amount` tokens
    /// at `current_supply`: returns the cost or proceeds and the new marginal
    /// price.
    pub fn quote(&self, current_supply: u64, amount: u64, is_selling: bool) -> (r: Result<
        (u64, u64),
        Error,
    >)
        ensures
            r == quote_spec(*self, current_supply, amount, is_selling),
    {
        if amount == 0 {
            return Err(Error::InvalidAmount);
        }
        if is_selling && amount > current_supply {
            return Err(Error::InsufficientSupply);
        }
        let new_supply = if is_selling {
            current_supply - amount
        } else {
            current_supply.saturating_add(amount)
        };
        let (top, bottom) = if is_selling {
            (current_supply, new_supply)
        } else {
            (new_supply, current_supply)
        };
        proof {
            lemma_integral6_monotone(*self, bottom as int, top as int);
        }
        let i_top = match self.integral6(top) {
            Some(v) => v,
            None => return Err(Error::Overflow),
        };
        let i_bottom = match self.integral6(bottom) {
            Some(v) => v,
            None => return Err(Error::Overflow),
        };
        let rounded = round_half_up_div(i_top - i_bottom, 6);
        let cost = if rounded == 0 {
            1
        } else {
            rounded
        };
        if cost > u64::MAX as u128 {
            return Err(Error::Overflow);
        }
        let price = match self.price_function(new_supply) {
            Some(p) => if p == 0 {
                1
            } else {
                p
            },
            None => return Err(Error::Overflow),
        };
        Ok((cost as u64, price))
    }
}

/// The curve that `calculate_price` prices on.
pub open spec fn default_curve() -> PricingCurve {
    PricingCurve { a: 0, b: DEFAULT_SLOPE as u64, c: 0 }
}

/// Prices a trade on the default linear curve `price(n) = n`.
pub fn calculate_price(current_supply: u64, amount: u64, is_selling: bool) -> (r: Result<
    (u64, u64),
    Error,
>)
    ensures
        r == quote_spec(default_curve(), current_supply, amount, is_selling),
{
    PricingCurve::linear(DEFAULT_SLOPE).quote(current_supply, amount, is_selling)
}

/// On an increasing curve the marginal price strictly grows with supply.
pub proof fn lemma_price_strictly_increasing(curve: PricingCurve, x: int, y: int)
    requires
        curve.is_increasing(),
        0 <= x < y,
    ensures
        curve.price_at(x) < curve.price_at(y),
        curve.price_at(y) >= 1,
{
    assert(x * x <= y * y) by (nonlinear_arith)
        requires 0 <= x <= y;
    assert(curve.a * (x * x) <= curve.a * (y * y)) by (nonlinear_arith)
        requires x * x <= y * y, curve.a >= 0;
    assert(curve.b * x <= curve.b * y) by (nonlinear_arith)
        requires x <= y, curve.b >= 0;
    if curve.a > 0 {
        assert(x * x < y * y) by (nonlinear_arith)
            requires 0 <= x < y;
        assert(curve.a * (x * x) < curve.a * (y * y)) by (nonlinear_arith)
            requires x * x < y * y, curve.a > 0;
    } else {
        assert(curve.b * x < curve.b * y) by (nonlinear_arith)
            requires x < y, curve.b > 0;
    }
    assert(curve.a * (x * x) >= 0 && curve.b * x >= 0) by (nonlinear_arith)
        requires curve.a >= 0, curve.b >= 0, x >= 0;
}

/// The marginal price never decreases with supply.
pub proof fn lemma_price_monotone(curve: PricingCurve, x: int, y: int)
    requires
        0 <= x <= y,
    ensures
        curve.price_at(x) <= curve.price_at(y),
        curve.price_at(x) >= 0,
{
    assert(x * x <= y * y) by (nonlinear_arith)
        requires 0 <= x <= y;
    assert(curve.a * (x * x) <= curve.a * (y * y)) by (nonlinear_arith)
        requires x * x <= y * y, curve.a >= 0;
    assert(curve.b * x <= curve.b * y) by (nonlinear_arith)
        requires x <= y, curve.b >= 0;
    assert(curve.a * (x * x) >= 0 && curve.b * x >= 0) by (nonlinear_arith)
        requires curve.a >= 0, curve.b >= 0, x >= 0;
}

/// Buying `amount` and then selling the same `amount` from the resulting
/// supply quotes the same number of atomic units both ways, so the sale
/// returns the purchase cost to within one unit.
pub proof fn lemma_buy_then_sell_round_trip(curve: PricingCurve, current_supply: u64, amount: u64)
    requires
        current_supply + amount <= u64::MAX,
        quote_spec(curve, current_supply, amount, false) is Ok,
    ensures
        quote_spec(curve, (current_supply + amount) as u64, amount, true) is Ok,
        quote_spec(curve, (current_supply + amount) as u64, amount, true)->Ok_0.0
            == quote_spec(curve, current_supply, amount, false)->Ok_0.0,
        quote_spec(curve, (current_supply + amount) as u64, amount, true)->Ok_0.0
            <= quote_spec(curve, current_supply, amount, false)->Ok_0.0 + 1,
        quote_spec(curve, current_supply, amount, false)->Ok_0.0
            <= quote_spec(curve, (current_supply + amount) as u64, amount, true)->Ok_0.0 + 1,
{
    let up = (current_supply + amount) as u64;
    assert(new_supply_of(up, amount, true) == current_supply);
    lemma_price_monotone(curve, current_supply as int, up as int);
}

/// Buying more from the same supply on an increasing curve leaves a strictly
/// higher marginal price; a purchase that can be quoted makes every smaller
/// one quotable too.
pub proof fn lemma_buy_price_increasing(
    curve: PricingCurve,
    current_supply: u64,
    smaller: u64,
    larger: u64,
)
    requires
        curve.is_increasing(),
        0 < smaller < larger,
        current_supply + larger <= u64::MAX,
        quote_spec(curve, current_supply, larger, false) is Ok,
    ensures
        quote_spec(curve, current_supply, smaller, false) is Ok,
        quote_spec(curve, current_supply, smaller, false)->Ok_0.1 < quote_spec(
            curve,
            current_supply,
            larger,
            false,
        )->Ok_0.1,
{
    let cur = current_supply as int;
    let n1 = cur + smaller;
    let n2 = cur + larger;
    lemma_price_strictly_increasing(curve, n1, n2);
    lemma_price_strictly_increasing(curve, 0, n1);
    lemma_integral6_monotone(curve, cur, n1);
    lemma_integral6_monotone(curve, n1, n2);
    let d1 = curve.integral6_at(n1) - curve.integral6_at(cur);
    let d2 = curve.integral6_at(n2) - curve.integral6_at(cur);
    vstd::arithmetic::div_mod::lemma_div_is_ordered(2 * d1 + 6, 2 * d2 + 6, 12);
}

/// Selling more from the same supply on an increasing curve leaves a strictly
/// lower marginal price, except where the sale empties the supply and the
/// price sits at the curve's floor.
pub proof fn lemma_sell_price_decreasing(
    curve: PricingCurve,
    current_supply: u64,
    smaller: u64,
    larger: u64,
)
    requires
        curve.is_increasing(),
        0 < smaller < larger <= current_supply,
        quote_spec(curve, current_supply, smaller, true) is Ok,
        quote_spec(curve, current_supply, larger, true) is Ok,
    ensures
        quote_spec(curve, current_supply, larger, true)->Ok_0.1 < quote_spec(
            curve,
            current_supply,
            smaller,
            true,
        )->Ok_0.1 || (larger == current_supply && quote_spec(
            curve,
            current_supply,
            larger,
            true,
        )->Ok_0.1 == at_least_one(curve.c as int)),
{
    let n1 = current_supply - smaller;
    let n2 = current_supply - larger;
    lemma_price_strictly_increasing(curve, n2 as int, n1 as int);
    lemma_price_monotone(curve, 0, n2 as int);
    if n2 > 0 {
        lemma_price_strictly_increasing(curve, 0, n2 as int);
    } else {
        assert(curve.price_at(0) == curve.c) by (nonlinear_arith);
    }
}

} // verus!
