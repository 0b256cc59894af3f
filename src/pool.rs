//! Per-asset pool state: reserves, shares and the reward-rate timeline.
use vstd::prelude::*;

verus! {

/// Shares of a pool that no position holds, so that the pool never empties.
pub const DUST_SHARES: u128 = 10000000;

/// From `since` on, liquidity providers of a pool earn `rate` per second, split by share.
#[derive(Clone, Copy, Debug, PartialEq, Eq, Structural)]
pub struct RateChange {
    pub rate: u128,
    pub since: u64,
}

/// A pool pairs the hub asset with one other asset.
#[derive(Clone, Debug)]
pub struct Pool {
    /// The non-hub asset this pool trades.
    pub asset: u64,
    pub hub_balance: u128,
    pub other_balance: u128,
    /// Outstanding liquidity-provider shares.
    pub shares: u128,
    /// Cumulative hub-asset volume traded, for monitoring.
    pub volume: u128,
    /// Reward-rate timeline, oldest first.
    pub reward_rate: Vec<RateChange>,
}

/// A timeline whose `since` stamps strictly increase.
pub open spec fn timeline_ordered(h: Seq<RateChange>) -> bool {
    forall|i: int, j: int| 0 <= i < j < h.len() ==> h[i].since < h[j].since
}

impl Pool {
    /// The pool's timeline is ordered and not empty, and the dust shares that no
    /// position can redeem are still outstanding.
    pub open spec fn wf(&self) -> bool {
        &&& timeline_ordered(self.reward_rate@)
        &&& self.reward_rate@.len() > 0
        &&& self.shares >= DUST_SHARES
    }

    /// This pool with new reserves and `extra` more traded volume.
    pub open spec fn with_reserves(self, hub: u128, other: u128, extra: int) -> Pool {
        Pool {
            hub_balance: hub,
            other_balance: other,
            volume: (self.volume + extra) as u128,
            ..self
        }
    }

    /// This pool with new reserves and a new share count.
    pub open spec fn with_liquidity(self, hub: u128, other: u128, shares: u128) -> Pool {
        Pool { hub_balance: hub, other_balance: other, shares, ..self }
    }
}

} // verus!
