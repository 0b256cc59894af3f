use vstd::prelude::*;

verus! {

/// Why an operation was rejected. A rejected operation changes no ledger entry.
#[derive(Clone, Copy, Debug, PartialEq, Eq, Structural)]
pub enum CoreError {
    /// Identical assets, zero amounts or another malformed argument.
    InvalidInput,
    /// No pool or position exists for the given key.
    NotFound,
    /// The pool cannot serve a trade of the requested size.
    InsufficientLiquidity,
    /// The position holds less than was requested.
    InsufficientBalance,
    /// A step overflowed, underflowed or divided by zero.
    ArithmeticFault,
    /// The caller may not perform this operation.
    Unauthorized,
    /// No queued request has finished its cooldown.
    NothingMatured,
}

} // verus!
