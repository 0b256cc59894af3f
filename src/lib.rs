//! Settlement core of a hub-asset token economy: a constant-product market maker
//! routed through a single hub asset, a liquidity ledger with time-weighted
//! rewards and a withdrawal cooldown, and a staking ledger with the same queue.
//! Amounts are `u128` fixed-point integers; every step that could overflow,
//! underflow or divide by zero is checked and rejected with an error. Every
//! intermediate product must fit in a `u128` (below about 3.4e38): a pool whose
//! reserve product exceeds that cannot trade, and one whose reserve product
//! exceeds about 3.4e35 cannot take deposits (the share math scales that
//! product by 1000). Such operations fail with `ArithmeticFault`.
use vstd::prelude::*;

pub mod arith;
pub mod error;
pub mod laws;
pub mod market;
pub mod msg;
pub mod pool;
pub mod provide;
pub mod queue;
pub mod reward;
pub mod staking;
pub mod swap;
pub mod transfer;

verus! {

} // verus!
