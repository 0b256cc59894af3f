//! Liquidity provision: share issuance, reward claims and the withdrawal queue.
use vstd::prelude::*;
use vstd::arithmetic::div_mod::{lemma_div_is_ordered, lemma_div_multiples_vanish};
use crate::arith::{ceil_div, ceil_div_spec, SHARE_SCALE};
use crate::error::CoreError;
use crate::market::Market;
use crate::pool::{Pool, RateChange, DUST_SHARES};
use crate::queue::{select, split_matured, WithdrawRequest};
use crate::reward::{accrual_spec, accrued_reward};
use crate::transfer::{reward_mint, start_with_reward, Asset, Transfer, TransferKind};

verus! {

/// A liquidity provider's stake in one pool.
#[derive(Clone, Debug)]
pub struct ProviderPosition {
    pub shares_held: u128,
    pub last_claim: u64,
    /// Withdrawal requests in the order they were made.
    pub pending: Vec<WithdrawRequest>,
}

impl ProviderPosition {
    /// A position that holds nothing, as created on a provider's first deposit.
    pub fn new(now: u64) -> (r: ProviderPosition)
        ensures
            r.shares_held == 0,
            r.last_claim == now,
            r.pending@.len() == 0,
    {
        ProviderPosition { shares_held: 0, last_claim: now, pending: Vec::new() }
    }
}

/// Shares minted for a deposit of `hub_in` and `other_in` into a pool with
/// reserves `hub`, `other` and `shares` outstanding: the pool's share count
/// divided by the scaled, ceiling-rounded inverse of the deposit's proportion
/// of the reserve product, then scaled back up.
pub open spec fn minted_spec(hub: int, other: int, shares: int, hub_in: int, other_in: int) -> Result<u128, CoreError> {
    let existing = hub * other;
    let deposit = hub_in * other_in;
    let inverse = ceil_div_spec(existing * 1000, deposit);
    let scaled = shares / inverse;
    if existing > u128::MAX || deposit > u128::MAX {
        Err(CoreError::ArithmeticFault)
    } else if deposit > existing {
        Err(CoreError::InsufficientLiquidity)
    } else if existing * 1000 > u128::MAX {
        Err(CoreError::ArithmeticFault)
    } else if scaled == 0 {
        Err(CoreError::InvalidInput)
    } else if scaled * 1000 > u128::MAX {
        Err(CoreError::ArithmeticFault)
    } else {
        Ok((scaled * 1000) as u128)
    }
}

/// What redeeming `amount` shares of a pool with reserves `hub`, `other` and
/// `shares` outstanding pays out: `None` where either side rounds to zero, in
/// which case the shares go back to the position. A redemption that would leave
/// fewer than `DUST_SHARES` outstanding is refused.
pub open spec fn redeem_spec(hub: int, other: int, shares: int, amount: int) -> Result<Option<(u128, u128)>, CoreError> {
    let inverse = ceil_div_spec(shares * 1000, amount);
    let hub_out = hub / inverse;
    let other_out = other / inverse;
    if shares * 1000 > u128::MAX || amount == 0 || inverse == 0 {
        Err(CoreError::ArithmeticFault)
    } else if hub_out == 0 || other_out == 0 {
        Ok(None)
    } else if hub_out * 1000 > u128::MAX || other_out * 1000 > u128::MAX
        || hub_out * 1000 > hub || other_out * 1000 > other || amount > shares {
        Err(CoreError::ArithmeticFault)
    } else if shares - amount < DUST_SHARES {
        Err(CoreError::InsufficientLiquidity)
    } else {
        Ok(Some(((hub_out * 1000) as u128, (other_out * 1000) as u128)))
    }
}

/// The shares a deposit mints; see `minted_spec`.
pub fn shares_for_deposit(hub: u128, other: u128, shares: u128, hub_in: u128, other_in: u128)
    -> (r: Result<u128, CoreError>)
    requires
        hub_in > 0,
        other_in > 0,
    ensures
        r == minted_spec(hub as int, other as int, shares as int, hub_in as int, other_in as int),
{
    let existing = match hub.checked_mul(other) {
        Some(v) => v,
        None => return Err(CoreError::ArithmeticFault),
    };
    let deposit = match hub_in.checked_mul(other_in) {
        Some(v) => v,
        None => return Err(CoreError::ArithmeticFault),
    };
    if deposit > existing {
        return Err(CoreError::InsufficientLiquidity);
    }
    let scaled_existing = match existing.checked_mul(SHARE_SCALE) {
        Some(v) => v,
        None => return Err(CoreError::ArithmeticFault),
    };
    proof {
        assert(hub_in * other_in > 0) by (nonlinear_arith) requires hub_in > 0, other_in > 0;
    }
    let inverse = match ceil_div(scaled_existing, deposit) {
        Ok(v) => v,
        Err(e) => return Err(e),
    };
    proof {
        lemma_div_is_ordered(deposit as int, scaled_existing + deposit - 1, deposit as int);
        lemma_div_multiples_vanish(1, deposit as int);
    }
    let scaled = shares / inverse;
    if scaled == 0 {
        return Err(CoreError::InvalidInput);
    }
    match scaled.checked_mul(SHARE_SCALE) {
        Some(v) => Ok(v),
        None => Err(CoreError::ArithmeticFault),
    }
}

/// What redeeming `amount` shares pays out; see `redeem_spec`.
pub fn redeem_shares(hub: u128, other: u128, shares: u128, amount: u128)
    -> (r: Result<Option<(u128, u128)>, CoreError>)
    ensures
        r == redeem_spec(hub as int, other as int, shares as int, amount as int),
{
    let scaled_shares = match shares.checked_mul(SHARE_SCALE) {
        Some(v) => v,
        None => return Err(CoreError::ArithmeticFault),
    };
    let inverse = match ceil_div(scaled_shares, amount) {
        Ok(v) => v,
        Err(e) => return Err(e),
    };
    if inverse == 0 {
        return Err(CoreError::ArithmeticFault);
    }
    let hub_scaled = hub / inverse;
    let other_scaled = other / inverse;
    if hub_scaled == 0 || other_scaled == 0 {
        return Ok(None);
    }
    let hub_out = match hub_scaled.checked_mul(SHARE_SCALE) {
        Some(v) => v,
        None => return Err(CoreError::ArithmeticFault),
    };
    let other_out = match other_scaled.checked_mul(SHARE_SCALE) {
        Some(v) => v,
        None => return Err(CoreError::ArithmeticFault),
    };
    if hub_out > hub || other_out > other || amount > shares {
        return Err(CoreError::ArithmeticFault);
    }
    if shares - amount < DUST_SHARES {
        return Err(CoreError::InsufficientLiquidity);
    }
    Ok(Some((hub_out, other_out)))
}

/// Least hub-asset deposit that opens a pool.
pub const MIN_INITIAL_HUB: u128 = 100000000;

/// Reward rate of a new pool.
pub const INITIAL_REWARD_RATE: u128 = 1000000;

/// A pool's reserves and share count, with the shares a position holds.
#[derive(Clone, Copy, Debug, PartialEq, Eq, Structural)]
pub struct Holdings {
    pub hub_balance: u128,
    pub other_balance: u128,
    pub shares: u128,
    pub held: u128,
}

/// One matured request redeemed against `st`, after the transfers `ts`.
pub open spec fn redeem_step(st: Holdings, ts: Seq<Transfer>, req: WithdrawRequest, asset: u64)
    -> Result<(Holdings, Seq<Transfer>), CoreError> {
    match redeem_spec(st.hub_balance as int, st.other_balance as int, st.shares as int, req.amount as int) {
        Err(e) => Err(e),
        Ok(None) => if st.held + req.amount > u128::MAX {
            Err(CoreError::ArithmeticFault)
        } else {
            Ok((Holdings { held: (st.held + req.amount) as u128, ..st }, ts))
        },
        Ok(Some((h, o))) => Ok((
            Holdings {
                hub_balance: (st.hub_balance - h) as u128,
                other_balance: (st.other_balance - o) as u128,
                shares: (st.shares - req.amount) as u128,
                ..st
            },
            ts + seq![
                Transfer { kind: TransferKind::Send, asset: Asset::Hub, amount: h },
                Transfer { kind: TransferKind::Send, asset: Asset::Paired(asset), amount: o },
            ],
        )),
    }
}

/// The requests `reqs` redeemed in order, each against the reserves the
/// previous ones left.
pub open spec fn redeem_all(start: Holdings, reqs: Seq<WithdrawRequest>, asset: u64)
    -> Result<(Holdings, Seq<Transfer>), CoreError>
    decreases reqs.len(),
{
    if reqs.len() == 0 {
        Ok((start, Seq::empty()))
    } else {
        match redeem_all(start, reqs.drop_last(), asset) {
            Err(e) => Err(e),
            Ok((st, ts)) => redeem_step(st, ts, reqs.last(), asset),
        }
    }
}

/// Once a prefix of the requests fails, the whole run fails the same way.
proof fn lemma_redeem_prefix_fails(start: Holdings, reqs: Seq<WithdrawRequest>, j: int, asset: u64)
    requires
        0 <= j <= reqs.len(),
        redeem_all(start, reqs.subrange(0, j), asset) is Err,
    ensures
        redeem_all(start, reqs, asset) == redeem_all(start, reqs.subrange(0, j), asset),
    decreases reqs.len() - j,
{
    if j == reqs.len() {
        assert(reqs.subrange(0, j) =~= reqs);
    } else {
        assert(reqs.drop_last().subrange(0, j) =~= reqs.subrange(0, j));
        lemma_redeem_prefix_fails(start, reqs.drop_last(), j, asset);
    }
}

impl Market {
    /// What opening a pool for `asset` is refused with, if anything.
    pub open spec fn initialize_error(&self, asset: u64, hub_in: u128, other_in: u128) -> Option<CoreError> {
        if asset == self.params.hub || self.has_pool(asset) || hub_in < MIN_INITIAL_HUB || other_in == 0 {
            Some(CoreError::InvalidInput)
        } else {
            None
        }
    }

    /// Opens the pool of `asset` with the given reserves. The pool issues as many
    /// shares as hub-asset units deposited, of which the founder's position holds
    /// all but `DUST_SHARES`.
    pub fn try_initialize_pool(&mut self, asset: u64, hub_in: u128, other_in: u128, now: u64)
        -> (r: Result<(ProviderPosition, Vec<Transfer>), CoreError>)
        requires
            old(self).wf(),
        ensures
            final(self).wf(),
            old(self).initialize_error(asset, hub_in, other_in) matches Some(e) ==> {
                &&& r == Err::<(ProviderPosition, Vec<Transfer>), CoreError>(e)
                &&& *final(self) == *old(self)
            },
            old(self).initialize_error(asset, hub_in, other_in) is None ==> {
                &&& r is Ok
                &&& final(self).params == old(self).params
                &&& final(self).fee_balance == old(self).fee_balance
                &&& final(self).pools@.len() == old(self).pools@.len() + 1
                &&& final(self).pools@.drop_last() == old(self).pools@
                &&& final(self).pools@.last().asset == asset
                &&& final(self).pools@.last().hub_balance == hub_in
                &&& final(self).pools@.last().other_balance == other_in
                &&& final(self).pools@.last().shares == hub_in
                &&& final(self).pools@.last().volume == 0
                &&& final(self).pools@.last().reward_rate@
                        == seq![RateChange { rate: INITIAL_REWARD_RATE, since: now }]
                &&& r->Ok_0.0.shares_held == hub_in - DUST_SHARES
                &&& r->Ok_0.0.last_claim == now
                &&& r->Ok_0.0.pending@.len() == 0
                &&& r->Ok_0.1@ == seq![
                    Transfer { kind: TransferKind::Collect, asset: Asset::Hub, amount: hub_in },
                    Transfer { kind: TransferKind::Collect, asset: Asset::Paired(asset), amount: other_in },
                ]
            },
    {
        if asset == self.params.hub || self.find_pool(asset).is_some() || hub_in < MIN_INITIAL_HUB
            || other_in == 0 {
            return Err(CoreError::InvalidInput);
        }
        let mut timeline: Vec<RateChange> = Vec::new();
        timeline.push(RateChange { rate: INITIAL_REWARD_RATE, since: now });
        let pool = Pool {
            asset,
            hub_balance: hub_in,
            other_balance: other_in,
            shares: hub_in,
            volume: 0,
            reward_rate: timeline,
        };
        self.pools.push(pool);
        proof {
            assert(self.pools@.drop_last() =~= old(self).pools@);
            assert forall|j: int| 0 <= j < self.pools@.len() implies #[trigger] self.pools@[j].wf() by {
                if j < old(self).pools@.len() {
                    assert(old(self).pools@[j].wf());
                }
            }
            assert forall|i: int, j: int| 0 <= i < j < self.pools@.len()
                implies self.pools@[i].asset != self.pools@[j].asset by {
                if j == old(self).pools@.len() {
                    assert(old(self).pools@[i].asset != asset);
                }
            }
        }
        let position = ProviderPosition { shares_held: hub_in - DUST_SHARES, last_claim: now, pending: Vec::new() };
        let mut transfers: Vec<Transfer> = Vec::new();
        transfers.push(Transfer { kind: TransferKind::Collect, asset: Asset::Hub, amount: hub_in });
        transfers.push(Transfer { kind: TransferKind::Collect, asset: Asset::Paired(asset), amount: other_in });
        proof {
            assert(transfers@ =~= seq![
                Transfer { kind: TransferKind::Collect, asset: Asset::Hub, amount: hub_in },
                Transfer { kind: TransferKind::Collect, asset: Asset::Paired(asset), amount: other_in },
            ]);
        }
        Ok((position, transfers))
    }

    /// The reward owed to `pos` in the pool of `asset` at `now`.
    pub open spec fn claim_spec(&self, asset: u64, pos: ProviderPosition, now: u64) -> Result<u128, CoreError> {
        if !self.has_pool(asset) {
            Err(CoreError::NotFound)
        } else {
            let p = self.pool(asset);
            accrual_spec(p.reward_rate@, pos.shares_held, pos.last_claim, now, p.shares)
        }
    }

    /// Pays out the reward `position` has accrued in the pool of `asset` and
    /// restarts its accrual at `now`.
    pub fn try_claim_provide(&self, asset: u64, position: &mut ProviderPosition, now: u64)
        -> (r: Result<Vec<Transfer>, CoreError>)
        requires
            self.wf(),
        ensures
            self.claim_spec(asset, *old(position), now) matches Err(e) ==> {
                &&& r == Err::<Vec<Transfer>, CoreError>(e)
                &&& *final(position) == *old(position)
            },
            self.claim_spec(asset, *old(position), now) matches Ok(reward) ==> {
                &&& r is Ok
                &&& r->Ok_0@ == reward_mint(reward)
                &&& final(position).shares_held == old(position).shares_held
                &&& final(position).pending == old(position).pending
                &&& final(position).last_claim == now
            },
    {
        let i = match self.find_pool(asset) {
            Some(i) => i,
            None => return Err(CoreError::NotFound),
        };
        let p = &self.pools[i];
        proof {
            assert(self.pools@[i as int].wf());
        }
        let reward = match accrued_reward(&p.reward_rate, position.shares_held, position.last_claim, now, p.shares) {
            Ok(v) => v,
            Err(e) => return Err(e),
        };
        position.last_claim = now;
        Ok(start_with_reward(reward))
    }

    /// The reward `position` would be paid by a claim at `now`, with no change
    /// to anything; zero for no position.
    pub fn query_pool_info(&self, asset: u64, position: Option<&ProviderPosition>, now: u64)
        -> (r: Result<u128, CoreError>)
        requires
            self.wf(),
        ensures
            !self.has_pool(asset) ==> r == Err::<u128, CoreError>(CoreError::NotFound),
            self.has_pool(asset) && position is None ==> r == Ok::<u128, CoreError>(0),
            position matches Some(pos) ==> r == self.claim_spec(asset, *pos, now),
    {
        let i = match self.find_pool(asset) {
            Some(i) => i,
            None => return Err(CoreError::NotFound),
        };
        let p = &self.pools[i];
        proof {
            assert(self.pools@[i as int].wf());
        }
        match position {
            Some(pos) => accrued_reward(&p.reward_rate, pos.shares_held, pos.last_claim, now, p.shares),
            None => Ok(0),
        }
    }

    /// The reward paid and the shares minted by a deposit into the pool of `asset`.
    pub open spec fn add_liquidity_spec(&self, asset: u64, pos: ProviderPosition, hub_in: u128, other_in: u128, now: u64)
        -> Result<(u128, u128), CoreError> {
        if !self.has_pool(asset) {
            Err(CoreError::NotFound)
        } else if hub_in == 0 || other_in == 0 {
            Err(CoreError::InvalidInput)
        } else {
            let p = self.pool(asset);
            match accrual_spec(p.reward_rate@, pos.shares_held, pos.last_claim, now, p.shares) {
                Err(e) => Err(e),
                Ok(reward) => match minted_spec(p.hub_balance as int, p.other_balance as int, p.shares as int, hub_in as int, other_in as int) {
                    Err(e) => Err(e),
                    Ok(minted) => if p.hub_balance + hub_in > u128::MAX || p.other_balance + other_in > u128::MAX
                        || p.shares + minted > u128::MAX || pos.shares_held + minted > u128::MAX {
                        Err(CoreError::ArithmeticFault)
                    } else {
                        Ok((reward, minted))
                    },
                },
            }
        }
    }

    /// Deposits `hub_in` and `other_in` into the pool of `asset`. The reward the
    /// position accrued on its earlier shares is paid out first, so the new
    /// shares earn only from `now` on.
    pub fn try_add_liquidity(&mut self, asset: u64, position: &mut ProviderPosition, hub_in: u128, other_in: u128, now: u64)
        -> (r: Result<Vec<Transfer>, CoreError>)
        requires
            old(self).wf(),
        ensures
            final(self).wf(),
            old(self).add_liquidity_spec(asset, *old(position), hub_in, other_in, now) matches Err(e) ==> {
                &&& r == Err::<Vec<Transfer>, CoreError>(e)
                &&& *final(self) == *old(self)
                &&& *final(position) == *old(position)
            },
            old(self).add_liquidity_spec(asset, *old(position), hub_in, other_in, now) matches Ok((reward, minted)) ==> {
                let p = old(self).pool(asset);
                &&& r is Ok
                &&& r->Ok_0@ == reward_mint(reward) + seq![
                    Transfer { kind: TransferKind::Collect, asset: Asset::Hub, amount: hub_in },
                    Transfer { kind: TransferKind::Collect, asset: Asset::Paired(asset), amount: other_in },
                ]
                &&& final(self).pools@ == old(self).pools@.update(
                    old(self).pool_index(asset),
                    p.with_liquidity(
                        (p.hub_balance + hub_in) as u128,
                        (p.other_balance + other_in) as u128,
                        (p.shares + minted) as u128,
                    ),
                )
                &&& final(self).params == old(self).params
                &&& final(self).fee_balance == old(self).fee_balance
                &&& final(position).shares_held == old(position).shares_held + minted
                &&& final(position).last_claim == now
                &&& final(position).pending == old(position).pending
            },
    {
        let i = match self.find_pool(asset) {
            Some(i) => i,
            None => return Err(CoreError::NotFound),
        };
        if hub_in == 0 || other_in == 0 {
            return Err(CoreError::InvalidInput);
        }
        let p = &self.pools[i];
        proof {
            assert(self.pools@[i as int].wf());
        }
        let reward = match accrued_reward(&p.reward_rate, position.shares_held, position.last_claim, now, p.shares) {
            Ok(v) => v,
            Err(e) => return Err(e),
        };
        let minted = match shares_for_deposit(p.hub_balance, p.other_balance, p.shares, hub_in, other_in) {
            Ok(v) => v,
            Err(e) => return Err(e),
        };
        let hub = match p.hub_balance.checked_add(hub_in) {
            Some(v) => v,
            None => return Err(CoreError::ArithmeticFault),
        };
        let other = match p.other_balance.checked_add(other_in) {
            Some(v) => v,
            None => return Err(CoreError::ArithmeticFault),
        };
        let shares = match p.shares.checked_add(minted) {
            Some(v) => v,
            None => return Err(CoreError::ArithmeticFault),
        };
        let held = match position.shares_held.checked_add(minted) {
            Some(v) => v,
            None => return Err(CoreError::ArithmeticFault),
        };
        self.set_liquidity(i, hub, other, shares);
        position.shares_held = held;
        position.last_claim = now;
        let mut transfers = start_with_reward(reward);
        transfers.push(Transfer { kind: TransferKind::Collect, asset: Asset::Hub, amount: hub_in });
        transfers.push(Transfer { kind: TransferKind::Collect, asset: Asset::Paired(asset), amount: other_in });
        proof {
            assert(transfers@ =~= reward_mint(reward) + seq![
                Transfer { kind: TransferKind::Collect, asset: Asset::Hub, amount: hub_in },
                Transfer { kind: TransferKind::Collect, asset: Asset::Paired(asset), amount: other_in },
            ]);
        }
        Ok(transfers)
    }

    /// The reward paid by a withdrawal request of `amount` shares.
    pub open spec fn request_withdraw_spec(&self, asset: u64, pos: ProviderPosition, amount: u128, now: u64)
        -> Result<u128, CoreError> {
        if !self.has_pool(asset) {
            Err(CoreError::NotFound)
        } else if amount == 0 {
            Err(CoreError::InvalidInput)
        } else if amount > pos.shares_held {
            Err(CoreError::InsufficientBalance)
        } else {
            self.claim_spec(asset, pos, now)
        }
    }

    /// Queues the withdrawal of `amount` shares. The reward accrued so far is paid
    /// out, and the shares leave the position at once, so they stop earning; the
    /// pool's reserves are untouched until the request completes.
    pub fn try_request_withdraw(&self, asset: u64, position: &mut ProviderPosition, amount: u128, now: u64)
        -> (r: Result<Vec<Transfer>, CoreError>)
        requires
            self.wf(),
        ensures
            self.request_withdraw_spec(asset, *old(position), amount, now) matches Err(e) ==> {
                &&& r == Err::<Vec<Transfer>, CoreError>(e)
                &&& *final(position) == *old(position)
            },
            self.request_withdraw_spec(asset, *old(position), amount, now) matches Ok(reward) ==> {
                &&& r is Ok
                &&& r->Ok_0@ == reward_mint(reward)
                &&& final(position).shares_held == old(position).shares_held - amount
                &&& final(position).last_claim == now
                &&& final(position).pending@
                        == old(position).pending@.push(WithdrawRequest { amount, requested_at: now })
            },
    {
        let i = match self.find_pool(asset) {
            Some(i) => i,
            None => return Err(CoreError::NotFound),
        };
        if amount == 0 {
            return Err(CoreError::InvalidInput);
        }
        if amount > position.shares_held {
            return Err(CoreError::InsufficientBalance);
        }
        let p = &self.pools[i];
        proof {
            assert(self.pools@[i as int].wf());
        }
        let reward = match accrued_reward(&p.reward_rate, position.shares_held, position.last_claim, now, p.shares) {
            Ok(v) => v,
            Err(e) => return Err(e),
        };
        position.shares_held = position.shares_held - amount;
        position.last_claim = now;
        position.pending.push(WithdrawRequest { amount, requested_at: now });
        Ok(start_with_reward(reward))
    }

    /// The pool and position after the matured requests of `pos` are redeemed,
    /// with the transfers that pay them out.
    pub open spec fn complete_withdraw_spec(&self, asset: u64, pos: ProviderPosition, now: u64)
        -> Result<(Holdings, Seq<Transfer>), CoreError> {
        let matured = select(pos.pending@, now, self.params.cooldown, true);
        if !self.has_pool(asset) {
            Err(CoreError::NotFound)
        } else if matured.len() == 0 {
            Err(CoreError::NothingMatured)
        } else {
            let p = self.pool(asset);
            redeem_all(
                Holdings { hub_balance: p.hub_balance, other_balance: p.other_balance, shares: p.shares, held: pos.shares_held },
                matured,
                asset,
            )
        }
    }

    /// Redeems every request of `position` whose cooldown has passed, at the
    /// pool's reserves as they stand now; requests still cooling down stay queued.
    /// A redemption that rounds to nothing returns its shares to the position.
    pub fn try_complete_withdraw(&mut self, asset: u64, position: &mut ProviderPosition, now: u64)
        -> (r: Result<Vec<Transfer>, CoreError>)
        requires
            old(self).wf(),
        ensures
            final(self).wf(),
            old(self).complete_withdraw_spec(asset, *old(position), now) matches Err(e) ==> {
                &&& r == Err::<Vec<Transfer>, CoreError>(e)
                &&& *final(self) == *old(self)
                &&& *final(position) == *old(position)
            },
            old(self).complete_withdraw_spec(asset, *old(position), now) matches Ok((st, ts)) ==> {
                &&& r is Ok
                &&& r->Ok_0@ == ts
                &&& final(self).pools@ == old(self).pools@.update(
                    old(self).pool_index(asset),
                    old(self).pool(asset).with_liquidity(st.hub_balance, st.other_balance, st.shares),
                )
                &&& final(self).params == old(self).params
                &&& final(self).fee_balance == old(self).fee_balance
                &&& final(position).shares_held == st.held
                &&& final(position).last_claim == old(position).last_claim
                &&& final(position).pending@ == select(old(position).pending@, now, old(self).params.cooldown, false)
            },
    {
        let i = match self.find_pool(asset) {
            Some(i) => i,
            None => return Err(CoreError::NotFound),
        };
        let (matured, waiting) = split_matured(&position.pending, now, self.params.cooldown);
        if matured.len() == 0 {
            return Err(CoreError::NothingMatured);
        }
        let ghost start = Holdings {
            hub_balance: self.pools@[i as int].hub_balance,
            other_balance: self.pools@[i as int].other_balance,
            shares: self.pools@[i as int].shares,
            held: position.shares_held,
        };
        let mut st = Holdings {
            hub_balance: self.pools[i].hub_balance,
            other_balance: self.pools[i].other_balance,
            shares: self.pools[i].shares,
            held: position.shares_held,
        };
        proof {
            assert(self.pools@[i as int].wf());
        }
        let mut transfers: Vec<Transfer> = Vec::new();
        let mut k: usize = 0;
        while k < matured.len()
            invariant
                *self == *old(self),
                *position == *old(position),
                self.wf(),
                i == self.pool_index(asset),
                self.has_pool(asset),
                matured@.len() > 0,
                matured@ == select(old(position).pending@, now, old(self).params.cooldown, true),
                waiting@ == select(old(position).pending@, now, old(self).params.cooldown, false),
                start == (Holdings {
                    hub_balance: self.pool(asset).hub_balance,
                    other_balance: self.pool(asset).other_balance,
                    shares: self.pool(asset).shares,
                    held: position.shares_held,
                }),
                k <= matured@.len(),
                st.shares >= DUST_SHARES,
                redeem_all(start, matured@.subrange(0, k as int), asset) == Ok::<(Holdings, Seq<Transfer>), CoreError>((st, transfers@)),
            decreases matured@.len() - k,
        {
            let req = matured[k];
            proof {
                assert(matured@.subrange(0, k + 1).drop_last() =~= matured@.subrange(0, k as int));
                assert(matured@.subrange(0, k + 1).last() == req);
            }
            let step = redeem_shares(st.hub_balance, st.other_balance, st.shares, req.amount);
            match step {
                Err(e) => {
                    proof {
                        lemma_redeem_prefix_fails(start, matured@, k + 1, asset);
                    }
                    return Err(e);
                },
                Ok(None) => {
                    let held = match st.held.checked_add(req.amount) {
                        Some(v) => v,
                        None => {
                            proof {
                                lemma_redeem_prefix_fails(start, matured@, k + 1, asset);
                            }
                            return Err(CoreError::ArithmeticFault);
                        },
                    };
                    st = Holdings { held, ..st };
                },
                Ok(Some((h, o))) => {
                    st = Holdings {
                        hub_balance: st.hub_balance - h,
                        other_balance: st.other_balance - o,
                        shares: st.shares - req.amount,
                        held: st.held,
                    };
                    let ghost before = transfers@;
                    transfers.push(Transfer { kind: TransferKind::Send, asset: Asset::Hub, amount: h });
                    transfers.push(Transfer { kind: TransferKind::Send, asset: Asset::Paired(asset), amount: o });
                    proof {
                        assert(transfers@ =~= before + seq![
                            Transfer { kind: TransferKind::Send, asset: Asset::Hub, amount: h },
                            Transfer { kind: TransferKind::Send, asset: Asset::Paired(asset), amount: o },
                        ]);
                    }
                },
            }
            k = k + 1;
        }
        proof {
            assert(matured@.subrange(0, k as int) =~= matured@);
        }
        self.set_liquidity(i, st.hub_balance, st.other_balance, st.shares);
        position.shares_held = st.held;
        position.pending = waiting;
        Ok(transfers)
    }
}

} // verus!
