//! The set of pools and the routed trades across them.
use vstd::prelude::*;
use crate::arith::{lemma_fee_bounded, FEE_DENOMINATOR};
use crate::error::CoreError;
use crate::pool::Pool;
use crate::transfer::{Asset, Transfer, TransferKind};
use crate::swap::{
    buy_hub, buy_hub_spec, reverse_buy_hub, reverse_buy_hub_spec, reverse_sell_hub,
    reverse_sell_hub_spec, sell_hub, sell_hub_spec, Hop,
};

verus! {

/// Read-only settings of the market.
#[derive(Clone, Copy, Debug, PartialEq, Eq, Structural)]
pub struct Params {
    /// The asset every pool is paired against.
    pub hub: u64,
    /// Swap fee, scaled by 10000.
    pub fee_rate: u128,
    /// Seconds a withdrawal request waits before it can complete.
    pub cooldown: u64,
}

/// The result of a trade or of its simulation.
#[derive(Clone, Copy, Debug, PartialEq, Eq, Structural)]
pub struct SwapQuote {
    /// Forward: the output paid out. Reverse: the input required.
    pub amount: u128,
    /// Fees charged over all legs, in the hub asset.
    pub fee: u128,
    /// Price impact scaled by 10000; the larger leg's on a two-leg route.
    pub price_impact: u128,
}

/// The legs of a trade: one through a single pool, or two through the hub asset.
#[derive(Clone, Copy, Debug, PartialEq, Eq, Structural)]
pub enum Route {
    /// Hub asset in, other asset out.
    Sell(Hop),
    /// Other asset in, hub asset out.
    Buy(Hop),
    /// The first pool's asset in, the second pool's asset out; the first leg buys
    /// the hub asset and the second sells it.
    Double(Hop, Hop),
}

pub open spec fn lift_hop(r: Result<Hop, CoreError>, sell: bool) -> Result<Route, CoreError> {
    match r {
        Ok(h) => if sell { Ok(Route::Sell(h)) } else { Ok(Route::Buy(h)) },
        Err(e) => Err(e),
    }
}

pub open spec fn max_spec(a: u128, b: u128) -> u128 {
    if a > b { a } else { b }
}

/// The quote a route reports, or a fault where its fees do not fit.
pub open spec fn quote_spec(route: Route, reverse: bool) -> Result<SwapQuote, CoreError> {
    match route {
        Route::Sell(h) => Ok(SwapQuote { amount: h.amount, fee: h.fee, price_impact: h.price_impact }),
        Route::Buy(h) => Ok(SwapQuote { amount: h.amount, fee: h.fee, price_impact: h.price_impact }),
        Route::Double(h1, h2) => if h1.fee + h2.fee > u128::MAX {
            Err(CoreError::ArithmeticFault)
        } else {
            Ok(SwapQuote {
                amount: if reverse { h1.amount } else { h2.amount },
                fee: (h1.fee + h2.fee) as u128,
                price_impact: max_spec(h1.price_impact, h2.price_impact),
            })
        },
    }
}

pub open spec fn then_quote(r: Result<Route, CoreError>, reverse: bool) -> Result<SwapQuote, CoreError> {
    match r {
        Ok(route) => quote_spec(route, reverse),
        Err(e) => Err(e),
    }
}

fn quote_of(route: &Route, reverse: bool) -> (r: Result<SwapQuote, CoreError>)
    ensures
        r == quote_spec(*route, reverse),
{
    match route {
        Route::Sell(h) => Ok(SwapQuote { amount: h.amount, fee: h.fee, price_impact: h.price_impact }),
        Route::Buy(h) => Ok(SwapQuote { amount: h.amount, fee: h.fee, price_impact: h.price_impact }),
        Route::Double(h1, h2) => {
            let fee = match h1.fee.checked_add(h2.fee) {
                Some(v) => v,
                None => return Err(CoreError::ArithmeticFault),
            };
            let impact = if h1.price_impact > h2.price_impact { h1.price_impact } else { h2.price_impact };
            Ok(SwapQuote { amount: if reverse { h1.amount } else { h2.amount }, fee, price_impact: impact })
        },
    }
}

/// All pools of the market, keyed by their non-hub asset.
#[derive(Debug)]
pub struct Market {
    pub params: Params,
    pub pools: Vec<Pool>,
    /// Swap fees collected so far, in the hub asset.
    pub fee_balance: u128,
}

impl Market {
    /// A market with no pools; refused where the fee rate exceeds 100%.
    pub fn new(params: Params) -> (r: Result<Market, CoreError>)
        ensures
            params.fee_rate > FEE_DENOMINATOR ==> r == Err::<Market, CoreError>(CoreError::InvalidInput),
            params.fee_rate <= FEE_DENOMINATOR ==> {
                &&& r is Ok
                &&& r->Ok_0.wf()
                &&& r->Ok_0.params == params
                &&& r->Ok_0.pools@.len() == 0
                &&& r->Ok_0.fee_balance == 0
            },
    {
        if params.fee_rate > FEE_DENOMINATOR {
            return Err(CoreError::InvalidInput);
        }
        Ok(Market { params, pools: Vec::new(), fee_balance: 0 })
    }

    /// Fee rate at most 100%; one well-formed pool per non-hub asset.
    pub open spec fn wf(&self) -> bool {
        &&& self.params.fee_rate <= FEE_DENOMINATOR
        &&& forall|i: int, j: int| 0 <= i < j < self.pools@.len()
                ==> self.pools@[i].asset != self.pools@[j].asset
        &&& forall|i: int| 0 <= i < self.pools@.len() ==> self.pools@[i].asset != self.params.hub
        &&& forall|i: int| 0 <= i < self.pools@.len() ==> #[trigger] self.pools@[i].wf()
    }

    pub open spec fn has_pool(&self, asset: u64) -> bool {
        exists|i: int| 0 <= i < self.pools@.len() && self.pools@[i].asset == asset
    }

    /// Where the pool of `asset` stands in `pools`.
    pub open spec fn pool_index(&self, asset: u64) -> int {
        choose|i: int| 0 <= i < self.pools@.len() && self.pools@[i].asset == asset
    }

    pub open spec fn pool(&self, asset: u64) -> Pool {
        self.pools@[self.pool_index(asset)]
    }

    /// The legs that a trade of `amount` from `input` to `output` runs through.
    pub open spec fn route_spec(&self, input: u64, output: u64, amount: u128) -> Result<Route, CoreError> {
        let rate = self.params.fee_rate as int;
        let hub = self.params.hub;
        if input == output {
            Err(CoreError::InvalidInput)
        } else if input == hub {
            if !self.has_pool(output) {
                Err(CoreError::NotFound)
            } else {
                let p = self.pool(output);
                lift_hop(sell_hub_spec(p.hub_balance as int, p.other_balance as int, amount as int, rate), true)
            }
        } else if output == hub {
            if !self.has_pool(input) {
                Err(CoreError::NotFound)
            } else {
                let p = self.pool(input);
                lift_hop(buy_hub_spec(p.hub_balance as int, p.other_balance as int, amount as int, rate), false)
            }
        } else if !self.has_pool(input) || !self.has_pool(output) {
            Err(CoreError::NotFound)
        } else {
            let p1 = self.pool(input);
            let p2 = self.pool(output);
            match buy_hub_spec(p1.hub_balance as int, p1.other_balance as int, amount as int, rate) {
                Err(e) => Err(e),
                Ok(h1) => match sell_hub_spec(p2.hub_balance as int, p2.other_balance as int, h1.amount as int, rate) {
                    Err(e) => Err(e),
                    Ok(h2) => Ok(Route::Double(h1, h2)),
                },
            }
        }
    }

    /// The legs that deliver `desired` of `output` for some input of `input`.
    pub open spec fn reverse_route_spec(&self, input: u64, output: u64, desired: u128) -> Result<Route, CoreError> {
        let rate = self.params.fee_rate as int;
        let hub = self.params.hub;
        if input == output {
            Err(CoreError::InvalidInput)
        } else if output == hub {
            if !self.has_pool(input) {
                Err(CoreError::NotFound)
            } else {
                let p = self.pool(input);
                lift_hop(reverse_buy_hub_spec(p.hub_balance as int, p.other_balance as int, desired as int, rate), false)
            }
        } else if input == hub {
            if !self.has_pool(output) {
                Err(CoreError::NotFound)
            } else {
                let p = self.pool(output);
                lift_hop(reverse_sell_hub_spec(p.hub_balance as int, p.other_balance as int, desired as int, rate), true)
            }
        } else if !self.has_pool(input) || !self.has_pool(output) {
            Err(CoreError::NotFound)
        } else {
            let p1 = self.pool(input);
            let p2 = self.pool(output);
            match reverse_sell_hub_spec(p2.hub_balance as int, p2.other_balance as int, desired as int, rate) {
                Err(e) => Err(e),
                Ok(h2) => match reverse_buy_hub_spec(p1.hub_balance as int, p1.other_balance as int, h2.amount as int, rate) {
                    Err(e) => Err(e),
                    Ok(h1) => Ok(Route::Double(h1, h2)),
                },
            }
        }
    }

    /// The index of the pool of `asset`, if there is one.
    pub fn find_pool(&self, asset: u64) -> (r: Option<usize>)
        requires
            self.wf(),
        ensures
            r is None <==> !self.has_pool(asset),
            r matches Some(i) ==> i == self.pool_index(asset) && i < self.pools@.len()
                && self.pools@[i as int].asset == asset,
    {
        let mut i: usize = 0;
        while i < self.pools.len()
            invariant
                self.wf(),
                i <= self.pools@.len(),
                forall|j: int| 0 <= j < i ==> self.pools@[j].asset != asset,
            decreases self.pools@.len() - i,
        {
            if self.pools[i].asset == asset {
                proof {
                    assert(self.pools@[i as int].asset == asset);
                    assert(self.has_pool(asset));
                    let k = self.pool_index(asset);
                    assert(0 <= k < self.pools@.len() && self.pools@[k].asset == asset);
                    if k > i as int {
                        assert(self.pools@[i as int].asset != self.pools@[k].asset);
                    }
                }
                return Some(i);
            }
            i = i + 1;
        }
        None
    }

    fn route(&self, input: u64, output: u64, amount: u128) -> (r: Result<Route, CoreError>)
        requires
            self.wf(),
        ensures
            r == self.route_spec(input, output, amount),
    {
        let rate = self.params.fee_rate;
        let hub = self.params.hub;
        if input == output {
            return Err(CoreError::InvalidInput);
        }
        if input == hub {
            let i = match self.find_pool(output) {
                Some(i) => i,
                None => return Err(CoreError::NotFound),
            };
            let p = &self.pools[i];
            match sell_hub(p.hub_balance, p.other_balance, amount, rate) {
                Ok(h) => Ok(Route::Sell(h)),
                Err(e) => Err(e),
            }
        } else if output == hub {
            let i = match self.find_pool(input) {
                Some(i) => i,
                None => return Err(CoreError::NotFound),
            };
            let p = &self.pools[i];
            match buy_hub(p.hub_balance, p.other_balance, amount, rate) {
                Ok(h) => Ok(Route::Buy(h)),
                Err(e) => Err(e),
            }
        } else {
            let i1 = self.find_pool(input);
            let i2 = self.find_pool(output);
            if i1.is_none() || i2.is_none() {
                return Err(CoreError::NotFound);
            }
            let p1 = &self.pools[i1.unwrap()];
            let p2 = &self.pools[i2.unwrap()];
            let h1 = match buy_hub(p1.hub_balance, p1.other_balance, amount, rate) {
                Ok(h) => h,
                Err(e) => return Err(e),
            };
            match sell_hub(p2.hub_balance, p2.other_balance, h1.amount, rate) {
                Ok(h2) => Ok(Route::Double(h1, h2)),
                Err(e) => Err(e),
            }
        }
    }

    fn reverse_route(&self, input: u64, output: u64, desired: u128) -> (r: Result<Route, CoreError>)
        requires
            self.wf(),
        ensures
            r == self.reverse_route_spec(input, output, desired),
    {
        let rate = self.params.fee_rate;
        let hub = self.params.hub;
        if input == output {
            return Err(CoreError::InvalidInput);
        }
        if output == hub {
            let i = match self.find_pool(input) {
                Some(i) => i,
                None => return Err(CoreError::NotFound),
            };
            let p = &self.pools[i];
            match reverse_buy_hub(p.hub_balance, p.other_balance, desired, rate) {
                Ok(h) => Ok(Route::Buy(h)),
                Err(e) => Err(e),
            }
        } else if input == hub {
            let i = match self.find_pool(output) {
                Some(i) => i,
                None => return Err(CoreError::NotFound),
            };
            let p = &self.pools[i];
            match reverse_sell_hub(p.hub_balance, p.other_balance, desired, rate) {
                Ok(h) => Ok(Route::Sell(h)),
                Err(e) => Err(e),
            }
        } else {
            let i1 = self.find_pool(input);
            let i2 = self.find_pool(output);
            if i1.is_none() || i2.is_none() {
                return Err(CoreError::NotFound);
            }
            let p1 = &self.pools[i1.unwrap()];
            let p2 = &self.pools[i2.unwrap()];
            let h2 = match reverse_sell_hub(p2.hub_balance, p2.other_balance, desired, rate) {
                Ok(h) => h,
                Err(e) => return Err(e),
            };
            match reverse_buy_hub(p1.hub_balance, p1.other_balance, h2.amount, rate) {
                Ok(h1) => Ok(Route::Double(h1, h2)),
                Err(e) => Err(e),
            }
        }
    }

    /// What a trade of `amount` from `input` to `output` would pay out, with no
    /// change to any pool.
    pub fn query_swap_simulation(&self, input: u64, output: u64, amount: u128) -> (r: Result<SwapQuote, CoreError>)
        requires
            self.wf(),
        ensures
            r == self.swap_spec(input, output, amount),
    {
        let route = match self.route(input, output, amount) {
            Ok(route) => route,
            Err(e) => return Err(e),
        };
        let quote = match quote_of(&route, false) {
            Ok(q) => q,
            Err(e) => return Err(e),
        };
        if !self.counters_ok(input, output, amount, &route) {
            return Err(CoreError::ArithmeticFault);
        }
        Ok(quote)
    }

    /// Whether the volume counters and the fee balance can take what `route` adds.
    fn counters_ok(&self, input: u64, output: u64, amount: u128, route: &Route) -> (b: bool)
        requires
            self.wf(),
            self.route_spec(input, output, amount) == Ok::<Route, CoreError>(*route),
        ensures
            b == self.counters_fit(input, output, *route),
    {
        match route {
            Route::Sell(h) => {
                let i = self.find_pool(output).unwrap();
                self.fee_balance.checked_add(h.fee).is_some()
                    && self.pools[i].volume.checked_add(h.volume).is_some()
            },
            Route::Buy(h) => {
                let i = self.find_pool(input).unwrap();
                self.fee_balance.checked_add(h.fee).is_some()
                    && self.pools[i].volume.checked_add(h.volume).is_some()
            },
            Route::Double(h1, h2) => {
                let i1 = self.find_pool(input).unwrap();
                let i2 = self.find_pool(output).unwrap();
                let fee_ok = match h1.fee.checked_add(h2.fee) {
                    Some(f) => self.fee_balance.checked_add(f).is_some(),
                    None => false,
                };
                fee_ok && self.pools[i1].volume.checked_add(h1.volume).is_some()
                    && self.pools[i2].volume.checked_add(h2.volume).is_some()
            },
        }
    }

    /// The input of `input` a trade needs to pay out `desired` of `output`, with
    /// no change to any pool.
    pub fn query_reverse_swap(&self, input: u64, output: u64, desired: u128) -> (r: Result<SwapQuote, CoreError>)
        requires
            self.wf(),
        ensures
            r == then_quote(self.reverse_route_spec(input, output, desired), true),
    {
        match self.reverse_route(input, output, desired) {
            Ok(route) => quote_of(&route, true),
            Err(e) => Err(e),
        }
    }

    /// Fees that a route charges, in the hub asset.
    pub open spec fn route_fee(route: Route) -> int {
        match route {
            Route::Sell(h) => h.fee as int,
            Route::Buy(h) => h.fee as int,
            Route::Double(h1, h2) => h1.fee + h2.fee,
        }
    }

    /// The pools after `route` ran for a trade from `input` to `output`.
    pub open spec fn pools_after(&self, input: u64, output: u64, route: Route) -> Seq<Pool> {
        match route {
            Route::Sell(h) => self.pools@.update(
                self.pool_index(output),
                self.pool(output).with_reserves(h.hub_after, h.other_after, h.volume as int),
            ),
            Route::Buy(h) => self.pools@.update(
                self.pool_index(input),
                self.pool(input).with_reserves(h.hub_after, h.other_after, h.volume as int),
            ),
            Route::Double(h1, h2) => self.pools@.update(
                self.pool_index(input),
                self.pool(input).with_reserves(h1.hub_after, h1.other_after, h1.volume as int),
            ).update(
                self.pool_index(output),
                self.pool(output).with_reserves(h2.hub_after, h2.other_after, h2.volume as int),
            ),
        }
    }

    /// The volume counters and the fee balance can take what `route` adds.
    pub open spec fn counters_fit(&self, input: u64, output: u64, route: Route) -> bool {
        &&& self.fee_balance + Self::route_fee(route) <= u128::MAX
        &&& match route {
            Route::Sell(h) => self.pool(output).volume + h.volume <= u128::MAX,
            Route::Buy(h) => self.pool(input).volume + h.volume <= u128::MAX,
            Route::Double(h1, h2) => self.pool(input).volume + h1.volume <= u128::MAX
                && self.pool(output).volume + h2.volume <= u128::MAX,
        }
    }

    /// What an executed trade returns.
    pub open spec fn swap_spec(&self, input: u64, output: u64, amount: u128) -> Result<SwapQuote, CoreError> {
        match self.route_spec(input, output, amount) {
            Err(e) => Err(e),
            Ok(route) => if quote_spec(route, false) is Err || !self.counters_fit(input, output, route) {
                Err(CoreError::ArithmeticFault)
            } else {
                quote_spec(route, false)
            },
        }
    }

    fn set_reserves(&mut self, i: usize, hub: u128, other: u128, extra: u128)
        requires
            i < old(self).pools@.len(),
            old(self).pools@[i as int].volume + extra <= u128::MAX,
        ensures
            final(self).pools@ == old(self).pools@.update(
                i as int,
                old(self).pools@[i as int].with_reserves(hub, other, extra as int),
            ),
            final(self).params == old(self).params,
            final(self).fee_balance == old(self).fee_balance,
            old(self).wf() ==> final(self).wf(),
    {
        let mut p = self.pools.remove(i);
        p.hub_balance = hub;
        p.other_balance = other;
        p.volume = p.volume + extra;
        self.pools.insert(i, p);
        proof {
            assert(self.pools@ =~= old(self).pools@.update(
                i as int,
                old(self).pools@[i as int].with_reserves(hub, other, extra as int),
            ));
            if old(self).wf() {
                assert forall|j: int| 0 <= j < self.pools@.len() implies #[trigger] self.pools@[j].wf() by {
                    assert(old(self).pools@[j].wf());
                }
            }
        }
    }

    pub(crate) fn set_liquidity(&mut self, i: usize, hub: u128, other: u128, shares: u128)
        requires
            i < old(self).pools@.len(),
            shares >= crate::pool::DUST_SHARES,
        ensures
            final(self).pools@ == old(self).pools@.update(
                i as int,
                old(self).pools@[i as int].with_liquidity(hub, other, shares),
            ),
            final(self).params == old(self).params,
            final(self).fee_balance == old(self).fee_balance,
            old(self).wf() ==> final(self).wf(),
    {
        let mut p = self.pools.remove(i);
        p.hub_balance = hub;
        p.other_balance = other;
        p.shares = shares;
        self.pools.insert(i, p);
        proof {
            assert(self.pools@ =~= old(self).pools@.update(
                i as int,
                old(self).pools@[i as int].with_liquidity(hub, other, shares),
            ));
            if old(self).wf() {
                assert forall|j: int| 0 <= j < self.pools@.len() implies #[trigger] self.pools@[j].wf() by {
                    assert(old(self).pools@[j].wf());
                }
            }
        }
    }

    /// Executes a trade of `amount` from `input` to `output`: one leg where either
    /// side is the hub asset, two through the hub asset otherwise. Both legs apply
    /// or neither does, and a rejected trade changes nothing.
    pub fn try_swap(&mut self, input: u64, output: u64, amount: u128)
        -> (r: Result<(SwapQuote, Vec<Transfer>), CoreError>)
        requires
            old(self).wf(),
        ensures
            final(self).wf(),
            old(self).swap_spec(input, output, amount) matches Err(e) ==> {
                &&& r == Err::<(SwapQuote, Vec<Transfer>), CoreError>(e)
                &&& *final(self) == *old(self)
            },
            old(self).swap_spec(input, output, amount) matches Ok(q) ==> {
                let route = old(self).route_spec(input, output, amount)->Ok_0;
                &&& r is Ok
                &&& r->Ok_0.0 == q
                &&& r->Ok_0.1@ == seq![Transfer {
                    kind: TransferKind::Send,
                    asset: old(self).asset_of(output),
                    amount: q.amount,
                }]
                &&& final(self).pools@ == old(self).pools_after(input, output, route)
                &&& final(self).fee_balance == old(self).fee_balance + Self::route_fee(route)
                &&& final(self).params == old(self).params
            },
    {
        let route = match self.route(input, output, amount) {
            Ok(route) => route,
            Err(e) => return Err(e),
        };
        let quote = match quote_of(&route, false) {
            Ok(q) => q,
            Err(e) => return Err(e),
        };
        if !self.counters_ok(input, output, amount, &route) {
            return Err(CoreError::ArithmeticFault);
        }
        let fee_balance = self.fee_balance + quote.fee;
        match route {
            Route::Sell(h) => {
                let i = self.find_pool(output).unwrap();
                self.set_reserves(i, h.hub_after, h.other_after, h.volume);
            },
            Route::Buy(h) => {
                let i = self.find_pool(input).unwrap();
                self.set_reserves(i, h.hub_after, h.other_after, h.volume);
            },
            Route::Double(h1, h2) => {
                let i1 = self.find_pool(input).unwrap();
                let i2 = self.find_pool(output).unwrap();
                assert(i1 != i2);
                self.set_reserves(i1, h1.hub_after, h1.other_after, h1.volume);
                self.set_reserves(i2, h2.hub_after, h2.other_after, h2.volume);
            },
        }
        self.fee_balance = fee_balance;
        let asset = if output == self.params.hub { Asset::Hub } else { Asset::Paired(output) };
        let mut transfers: Vec<Transfer> = Vec::new();
        transfers.push(Transfer { kind: TransferKind::Send, asset, amount: quote.amount });
        proof {
            assert(transfers@ =~= seq![Transfer { kind: TransferKind::Send, asset, amount: quote.amount }]);
        }
        Ok((quote, transfers))
    }

    /// How the ledgers name the asset `id`.
    pub open spec fn asset_of(&self, id: u64) -> Asset {
        if id == self.params.hub { Asset::Hub } else { Asset::Paired(id) }
    }
}

} // verus!
