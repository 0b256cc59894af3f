//! Asset-transfer instructions that operations hand back to the caller.
use vstd::prelude::*;

verus! {

/// An asset the ledgers move.
#[derive(Clone, Copy, Debug, PartialEq, Eq, Structural)]
pub enum Asset {
    /// The asset every pool is paired against.
    Hub,
    /// The non-hub asset of the pool with this identifier.
    Paired(u64),
    /// The asset that rewards are paid in, which is also the staked asset.
    Reward,
}

/// Who sends and who receives.
#[derive(Clone, Copy, Debug, PartialEq, Eq, Structural)]
pub enum TransferKind {
    /// From the ledger to the caller.
    Send,
    /// From the caller to the ledger.
    Collect,
    /// Newly minted, to the caller.
    Mint,
    /// Newly minted, to the ledger itself.
    MintToLedger,
}

/// One instruction for the asset-transfer collaborator.
#[derive(Clone, Copy, Debug, PartialEq, Eq, Structural)]
pub struct Transfer {
    pub kind: TransferKind,
    pub asset: Asset,
    pub amount: u128,
}

/// A mint of `reward` to the caller, or nothing when there is no reward.
pub open spec fn reward_mint(reward: u128) -> Seq<Transfer> {
    if reward > 0 {
        seq![Transfer { kind: TransferKind::Mint, asset: Asset::Reward, amount: reward }]
    } else {
        Seq::empty()
    }
}

/// Instructions that begin with the reward mint, if any.
pub fn start_with_reward(reward: u128) -> (r: Vec<Transfer>)
    ensures
        r@ == reward_mint(reward),
{
    let mut v: Vec<Transfer> = Vec::new();
    if reward > 0 {
        v.push(Transfer { kind: TransferKind::Mint, asset: Asset::Reward, amount: reward });
    }
    proof {
        assert(v@ =~= reward_mint(reward));
    }
    v
}

} // verus!
