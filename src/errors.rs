use vstd::prelude::*;

verus! {

/// Every way an operation of the core can be refused.
#[derive(Debug, Clone, Copy, PartialEq, Eq, Structural)]
pub enum Error {
    /// A zero or otherwise meaningless quantity.
    InvalidAmount,
    /// A ticker that is empty, too long or not uppercase ASCII.
    InvalidTicker,
    /// Selling more tokens than exist.
    InsufficientSupply,
    /// The caller lacks the tokens or LP shares for the request.
    InsufficientBalance,
    /// The reserve vault cannot cover a payout.
    InsufficientReserve,
    /// A market reserve is empty or would be drained.
    InsufficientLiquidity,
    /// A privileged action by someone other than the creator.
    Unauthorized,
    /// Closing before the maturity deadline.
    NotYetMaturable,
    /// Closing a pool that is already closed.
    AlreadyClosed,
    /// The pool's state forbids the action.
    WrongState,
    /// An arithmetic bound was exceeded.
    Overflow,
}

/// Errors specific to the market pool.
#[derive(Debug, Clone, Copy, PartialEq, Eq, Structural)]
pub enum AmmError {
    PoolAmountTooLow,
}

} // verus!
