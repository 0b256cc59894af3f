//! The staking ledger: one pool, one flat reward rate, and an unstake queue.
use vstd::prelude::*;
use vstd::arithmetic::div_mod::lemma_div_is_ordered;
use crate::error::CoreError;
use crate::queue::{select, split_matured, WithdrawRequest};
use crate::reward::TWO_YEARS;
use crate::transfer::{reward_mint, start_with_reward, Asset, Transfer, TransferKind};

verus! {

/// A staker's position.
#[derive(Clone, Debug)]
pub struct StakerPosition {
    pub staked_amount: u128,
    pub last_claim: u64,
    /// Unstake requests in the order they were made.
    pub pending: Vec<WithdrawRequest>,
}

impl StakerPosition {
    /// A position that holds nothing, as created on a staker's first stake.
    pub fn new(now: u64) -> (r: StakerPosition)
        ensures
            r.staked_amount == 0,
            r.last_claim == now,
            r.pending@.len() == 0,
    {
        StakerPosition { staked_amount: 0, last_claim: now, pending: Vec::new() }
    }
}

/// The global staking state.
#[derive(Clone, Copy, Debug, PartialEq, Eq, Structural)]
pub struct StakingLedger {
    /// The asset that is staked, and that rewards are paid in.
    pub stake_asset: u64,
    /// Sum of all staked amounts.
    pub total_staked: u128,
    /// Reward per second on the whole pool.
    pub reward_rate: u128,
    /// Seconds an unstake request waits before it can complete.
    pub cooldown: u64,
}

/// The reward owed on `staked` of `total` from `last` to `now` at `rate`:
/// `staked * elapsed * rate / total`, floored; a flat 1 once two years have
/// passed unclaimed; nothing on an empty position.
pub open spec fn stake_reward_spec(staked: u128, last: u64, now: u64, total: u128, rate: u128) -> Result<u128, CoreError> {
    let elapsed = now as int - last as int;
    if now < last {
        Err(CoreError::ArithmeticFault)
    } else if elapsed >= TWO_YEARS {
        Ok(1)
    } else if staked == 0 {
        Ok(0)
    } else if total == 0 || elapsed * rate > u128::MAX || staked * (elapsed * rate) > u128::MAX {
        Err(CoreError::ArithmeticFault)
    } else {
        Ok((staked * (elapsed * rate) / (total as int)) as u128)
    }
}

/// The reward owed; see `stake_reward_spec`.
pub fn stake_reward(staked: u128, last: u64, now: u64, total: u128, rate: u128) -> (r: Result<u128, CoreError>)
    ensures
        r == stake_reward_spec(staked, last, now, total, rate),
{
    if now < last {
        return Err(CoreError::ArithmeticFault);
    }
    let elapsed = now - last;
    if elapsed >= TWO_YEARS {
        return Ok(1);
    }
    if staked == 0 {
        return Ok(0);
    }
    if total == 0 {
        return Err(CoreError::ArithmeticFault);
    }
    let per_pool = match (elapsed as u128).checked_mul(rate) {
        Some(v) => v,
        None => return Err(CoreError::ArithmeticFault),
    };
    let scaled = match staked.checked_mul(per_pool) {
        Some(v) => v,
        None => return Err(CoreError::ArithmeticFault),
    };
    proof {
        assert(0 <= staked * (elapsed * rate)) by (nonlinear_arith)
            requires 0 <= staked, 0 <= elapsed, 0 <= rate;
        lemma_div_is_ordered(0, scaled as int, total as int);
        assert(scaled as int / total as int <= scaled as int) by {
            vstd::arithmetic::div_mod::lemma_div_is_ordered_by_denominator(scaled as int, 1, total as int);
        }
    }
    Ok(scaled / total)
}

/// Staking reward is monotonic in elapsed time and in the amount staked, while
/// the later claim still falls within the two-year cap.
pub proof fn lemma_stake_reward_monotone(staked1: u128, staked2: u128, last: u64, now1: u64, now2: u64, total: u128, rate: u128)
    requires
        staked1 <= staked2,
        last <= now1 <= now2,
        now2 - last < TWO_YEARS,
        stake_reward_spec(staked2, last, now2, total, rate) is Ok,
    ensures
        stake_reward_spec(staked1, last, now1, total, rate) is Ok,
        stake_reward_spec(staked1, last, now1, total, rate)->Ok_0 <= stake_reward_spec(staked2, last, now2, total, rate)->Ok_0,
{
    let e1 = now1 - last;
    let e2 = now2 - last;
    if staked1 > 0 {
        assert(0 <= e1 * rate <= e2 * rate) by (nonlinear_arith) requires 0 <= e1 <= e2, 0 <= rate;
        assert(0 <= staked1 * (e1 * rate) <= staked2 * (e2 * rate)) by (nonlinear_arith)
            requires 0 <= staked1 <= staked2, 0 <= e1 * rate <= e2 * rate;
        lemma_div_is_ordered(staked1 * (e1 * rate), staked2 * (e2 * rate), total as int);
        lemma_div_is_ordered(0, staked1 * (e1 * rate), total as int);
    }
}

/// The transfers that pay out `reward`: minted to the staker, or to the ledger
/// where the reward is compounded into the stake.
pub open spec fn payout(reward: u128, compound: bool) -> Seq<Transfer> {
    if compound && reward > 0 {
        seq![Transfer { kind: TransferKind::MintToLedger, asset: Asset::Reward, amount: reward }]
    } else {
        reward_mint(reward)
    }
}

/// A send of each request's amount, in order.
pub open spec fn unstake_payouts(reqs: Seq<WithdrawRequest>) -> Seq<Transfer> {
    reqs.map_values(|r: WithdrawRequest| Transfer { kind: TransferKind::Send, asset: Asset::Reward, amount: r.amount })
}

fn payout_of(reward: u128, compound: bool) -> (r: Vec<Transfer>)
    ensures
        r@ == payout(reward, compound),
{
    if compound && reward > 0 {
        let mut v: Vec<Transfer> = Vec::new();
        v.push(Transfer { kind: TransferKind::MintToLedger, asset: Asset::Reward, amount: reward });
        proof {
            assert(v@ =~= payout(reward, compound));
        }
        v
    } else {
        start_with_reward(reward)
    }
}

impl StakingLedger {
    /// A ledger with nothing staked.
    pub fn new(stake_asset: u64, reward_rate: u128, cooldown: u64) -> (r: StakingLedger)
        ensures
            r == (StakingLedger { stake_asset, total_staked: 0, reward_rate, cooldown }),
    {
        StakingLedger { stake_asset, total_staked: 0, reward_rate, cooldown }
    }

    /// The reward `pos` has accrued at `now`.
    pub open spec fn reward_of(&self, pos: StakerPosition, now: u64) -> Result<u128, CoreError> {
        stake_reward_spec(pos.staked_amount, pos.last_claim, now, self.total_staked, self.reward_rate)
    }

    /// The amount by which a payout of `reward` grows the stake.
    pub open spec fn compounded(reward: u128, compound: bool) -> int {
        if compound { reward as int } else { 0 }
    }

    /// The reward paid by staking `amount` of `token`.
    pub open spec fn stake_spec(&self, pos: StakerPosition, token: u64, amount: u128, compound: bool, now: u64)
        -> Result<u128, CoreError> {
        if token != self.stake_asset {
            Err(CoreError::Unauthorized)
        } else if amount == 0 {
            Err(CoreError::InvalidInput)
        } else {
            match self.reward_of(pos, now) {
                Err(e) => Err(e),
                Ok(reward) => {
                    let added = Self::compounded(reward, compound) + amount;
                    if self.total_staked + added > u128::MAX || pos.staked_amount + added > u128::MAX {
                        Err(CoreError::ArithmeticFault)
                    } else {
                        Ok(reward)
                    }
                },
            }
        }
    }

    /// Stakes `amount` of `token` for `position`. The reward accrued so far is
    /// first paid out, or with `compound` added to the stake.
    pub fn try_stake(&mut self, position: &mut StakerPosition, token: u64, amount: u128, compound: bool, now: u64)
        -> (r: Result<Vec<Transfer>, CoreError>)
        ensures
            old(self).stake_spec(*old(position), token, amount, compound, now) matches Err(e) ==> {
                &&& r == Err::<Vec<Transfer>, CoreError>(e)
                &&& *final(self) == *old(self)
                &&& *final(position) == *old(position)
            },
            old(self).stake_spec(*old(position), token, amount, compound, now) matches Ok(reward) ==> {
                let added = Self::compounded(reward, compound) + amount;
                &&& r is Ok
                &&& r->Ok_0@ == payout(reward, compound)
                &&& *final(self) == (StakingLedger { total_staked: (old(self).total_staked + added) as u128, ..*old(self) })
                &&& final(position).staked_amount == old(position).staked_amount + added
                &&& final(position).last_claim == now
                &&& final(position).pending == old(position).pending
            },
    {
        if token != self.stake_asset {
            return Err(CoreError::Unauthorized);
        }
        if amount == 0 {
            return Err(CoreError::InvalidInput);
        }
        let reward = match stake_reward(position.staked_amount, position.last_claim, now, self.total_staked, self.reward_rate) {
            Ok(v) => v,
            Err(e) => return Err(e),
        };
        let added = if compound {
            match reward.checked_add(amount) {
                Some(v) => v,
                None => return Err(CoreError::ArithmeticFault),
            }
        } else {
            amount
        };
        let total = match self.total_staked.checked_add(added) {
            Some(v) => v,
            None => return Err(CoreError::ArithmeticFault),
        };
        let staked = match position.staked_amount.checked_add(added) {
            Some(v) => v,
            None => return Err(CoreError::ArithmeticFault),
        };
        self.total_staked = total;
        position.staked_amount = staked;
        position.last_claim = now;
        Ok(payout_of(reward, compound))
    }

    /// The reward paid by a claim.
    pub open spec fn claim_rewards_spec(&self, pos: StakerPosition, compound: bool, now: u64) -> Result<u128, CoreError> {
        match self.reward_of(pos, now) {
            Err(e) => Err(e),
            Ok(reward) => {
                let added = Self::compounded(reward, compound);
                if self.total_staked + added > u128::MAX || pos.staked_amount + added > u128::MAX {
                    Err(CoreError::ArithmeticFault)
                } else {
                    Ok(reward)
                }
            },
        }
    }

    /// Pays out the reward `position` has accrued, or with `compound` adds it to
    /// the stake, and restarts its accrual at `now`.
    pub fn try_claim_rewards(&mut self, position: &mut StakerPosition, compound: bool, now: u64)
        -> (r: Result<Vec<Transfer>, CoreError>)
        ensures
            old(self).claim_rewards_spec(*old(position), compound, now) matches Err(e) ==> {
                &&& r == Err::<Vec<Transfer>, CoreError>(e)
                &&& *final(self) == *old(self)
                &&& *final(position) == *old(position)
            },
            old(self).claim_rewards_spec(*old(position), compound, now) matches Ok(reward) ==> {
                let added = Self::compounded(reward, compound);
                &&& r is Ok
                &&& r->Ok_0@ == payout(reward, compound)
                &&& *final(self) == (StakingLedger { total_staked: (old(self).total_staked + added) as u128, ..*old(self) })
                &&& final(position).staked_amount == old(position).staked_amount + added
                &&& final(position).last_claim == now
                &&& final(position).pending == old(position).pending
            },
    {
        let reward = match stake_reward(position.staked_amount, position.last_claim, now, self.total_staked, self.reward_rate) {
            Ok(v) => v,
            Err(e) => return Err(e),
        };
        let added = if compound { reward } else { 0 };
        let total = match self.total_staked.checked_add(added) {
            Some(v) => v,
            None => return Err(CoreError::ArithmeticFault),
        };
        let staked = match position.staked_amount.checked_add(added) {
            Some(v) => v,
            None => return Err(CoreError::ArithmeticFault),
        };
        self.total_staked = total;
        position.staked_amount = staked;
        position.last_claim = now;
        Ok(payout_of(reward, compound))
    }

    /// What an unstake request of `amount` is refused with, if anything.
    pub open spec fn request_unstake_error(&self, pos: StakerPosition, amount: u128) -> Option<CoreError> {
        if amount == 0 {
            Some(CoreError::InvalidInput)
        } else if amount > pos.staked_amount {
            Some(CoreError::InsufficientBalance)
        } else if amount > self.total_staked {
            Some(CoreError::ArithmeticFault)
        } else {
            None
        }
    }

    /// Queues the unstaking of `amount`, which leaves the stake and the total at once.
    pub fn try_request_unstake(&mut self, position: &mut StakerPosition, amount: u128, now: u64)
        -> (r: Result<(), CoreError>)
        ensures
            old(self).request_unstake_error(*old(position), amount) matches Some(e) ==> {
                &&& r == Err::<(), CoreError>(e)
                &&& *final(self) == *old(self)
                &&& *final(position) == *old(position)
            },
            old(self).request_unstake_error(*old(position), amount) is None ==> {
                &&& r is Ok
                &&& *final(self) == (StakingLedger { total_staked: (old(self).total_staked - amount) as u128, ..*old(self) })
                &&& final(position).staked_amount == old(position).staked_amount - amount
                &&& final(position).last_claim == old(position).last_claim
                &&& final(position).pending@
                        == old(position).pending@.push(WithdrawRequest { amount, requested_at: now })
            },
    {
        if amount == 0 {
            return Err(CoreError::InvalidInput);
        }
        if amount > position.staked_amount {
            return Err(CoreError::InsufficientBalance);
        }
        if amount > self.total_staked {
            return Err(CoreError::ArithmeticFault);
        }
        self.total_staked = self.total_staked - amount;
        position.staked_amount = position.staked_amount - amount;
        position.pending.push(WithdrawRequest { amount, requested_at: now });
        Ok(())
    }

    /// Pays out every unstake request of `position` whose cooldown has passed;
    /// the others stay queued.
    pub fn try_complete_unstake(&self, position: &mut StakerPosition, now: u64) -> (r: Result<Vec<Transfer>, CoreError>)
        ensures
            select(old(position).pending@, now, self.cooldown, true).len() == 0 ==> {
                &&& r == Err::<Vec<Transfer>, CoreError>(CoreError::NothingMatured)
                &&& *final(position) == *old(position)
            },
            select(old(position).pending@, now, self.cooldown, true).len() > 0 ==> {
                &&& r is Ok
                &&& r->Ok_0@ == unstake_payouts(select(old(position).pending@, now, self.cooldown, true))
                &&& final(position).staked_amount == old(position).staked_amount
                &&& final(position).last_claim == old(position).last_claim
                &&& final(position).pending@ == select(old(position).pending@, now, self.cooldown, false)
            },
    {
        let (matured, waiting) = split_matured(&position.pending, now, self.cooldown);
        if matured.len() == 0 {
            return Err(CoreError::NothingMatured);
        }
        let mut transfers: Vec<Transfer> = Vec::new();
        let mut k: usize = 0;
        while k < matured.len()
            invariant
                k <= matured@.len(),
                transfers@ == unstake_payouts(matured@.subrange(0, k as int)),
            decreases matured@.len() - k,
        {
            transfers.push(Transfer { kind: TransferKind::Send, asset: Asset::Reward, amount: matured[k].amount });
            proof {
                assert(transfers@ =~= unstake_payouts(matured@.subrange(0, k + 1)));
            }
            k = k + 1;
        }
        proof {
            assert(matured@.subrange(0, k as int) =~= matured@);
        }
        position.pending = waiting;
        Ok(transfers)
    }

    /// The reward `position` would be paid by a claim at `now`, with no change to
    /// anything; `None` for no position.
    pub fn query_stake_info(&self, position: Option<&StakerPosition>, now: u64) -> (r: Result<Option<u128>, CoreError>)
        ensures
            position is None ==> r == Ok::<Option<u128>, CoreError>(None),
            position matches Some(pos) ==> match self.reward_of(*pos, now) {
                Ok(reward) => r == Ok::<Option<u128>, CoreError>(Some(reward)),
                Err(e) => r == Err::<Option<u128>, CoreError>(e),
            },
    {
        match position {
            None => Ok(None),
            Some(pos) => match stake_reward(pos.staked_amount, pos.last_claim, now, self.total_staked, self.reward_rate) {
                Ok(reward) => Ok(Some(reward)),
                Err(e) => Err(e),
            },
        }
    }
}

} // verus!
