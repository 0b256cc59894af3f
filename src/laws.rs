//! Properties that relate several operations of the ledgers.
use vstd::prelude::*;
use vstd::arithmetic::div_mod::{lemma_fundamental_div_mod, lemma_mod_pos_bound};
use crate::arith::{
    ceil_div_spec, fee_spec, lemma_ceil_bounds, lemma_ceil_reserve, lemma_fee_bounded, lemma_gross_up,
    lemma_product_quotient_bounded,
};
use crate::error::CoreError;
use crate::provide::{minted_spec, redeem_spec};
use crate::market::{then_quote, Market};
use crate::pool::RateChange;
use crate::reward::{accrual_spec, TWO_YEARS};
use crate::staking::stake_reward_spec;
use crate::swap::{buy_hub_spec, reverse_buy_hub_spec, reverse_sell_hub_spec, sell_hub_spec};
use vstd::arithmetic::div_mod::{lemma_div_is_ordered_by_denominator};

verus! {

/// `keep * (k / keep)` is `k` less the remainder of dividing by `keep`.
proof fn lemma_floor_product(k: int, keep: int)
    requires
        0 <= k,
        0 < keep,
    ensures
        keep * (k / keep) <= k < keep * (k / keep) + keep,
        k % keep == 0 ==> keep * (k / keep) == k,
{
    lemma_fundamental_div_mod(k, keep);
    lemma_mod_pos_bound(k, keep);
}

/// A leg that sells the hub asset never raises the reserve product, and loses
/// to rounding less than one unit of the new hub reserve.
pub proof fn lemma_sell_hub_product(hub: u128, other: u128, amount: u128, rate: u128)
    requires
        rate <= 10000,
        sell_hub_spec(hub as int, other as int, amount as int, rate as int) is Ok,
    ensures
        ({
            let h = sell_hub_spec(hub as int, other as int, amount as int, rate as int)->Ok_0;
            &&& 0 < h.hub_after
            &&& h.other_after == hub * other / (h.hub_after as int)
            &&& h.hub_after * h.other_after <= hub * other
            &&& hub * other < h.hub_after * h.other_after + h.hub_after
        }),
{
    let h = sell_hub_spec(hub as int, other as int, amount as int, rate as int)->Ok_0;
    lemma_fee_bounded(amount as int, rate as int);
    let hub_after = hub + (amount - amount * rate / 10000);
    lemma_product_quotient_bounded(hub as int, other as int, hub_after);
    assert(h.hub_after == hub_after);
    assert(h.other_after == hub * other / hub_after);
    lemma_floor_product(hub * other, hub_after);
}

/// A leg that buys the hub asset never raises the reserve product, and loses
/// to rounding less than one unit of the new other-asset reserve.
pub proof fn lemma_buy_hub_product(hub: u128, other: u128, amount: u128, rate: u128)
    requires
        rate <= 10000,
        buy_hub_spec(hub as int, other as int, amount as int, rate as int) is Ok,
    ensures
        ({
            let h = buy_hub_spec(hub as int, other as int, amount as int, rate as int)->Ok_0;
            &&& 0 < h.other_after
            &&& h.hub_after == hub * other / (h.other_after as int)
            &&& h.hub_after * h.other_after <= hub * other
            &&& hub * other < h.hub_after * h.other_after + h.other_after
        }),
{
    let h = buy_hub_spec(hub as int, other as int, amount as int, rate as int)->Ok_0;
    let other_after = other + amount;
    assert(hub * other == other * hub) by (nonlinear_arith);
    lemma_product_quotient_bounded(other as int, hub as int, other_after);
    assert(h.other_after == other_after);
    assert(h.hub_after == hub * other / other_after);
    assert(h.hub_after * h.other_after == h.other_after * h.hub_after) by (nonlinear_arith);
    lemma_floor_product(hub * other, other_after);
}

/// The reserve product after a single-hop trade is at least the product before
/// it, wherever the pool's new reserve on the input side divides the old product
/// (elsewhere the floor division of the invariant gives the trader the remainder).
pub proof fn lemma_swap_keeps_product(hub: u128, other: u128, amount: u128, rate: u128, sell: bool)
    requires
        rate <= 10000,
        sell ==> sell_hub_spec(hub as int, other as int, amount as int, rate as int) is Ok,
        !sell ==> buy_hub_spec(hub as int, other as int, amount as int, rate as int) is Ok,
        sell ==> (hub * other) % (sell_hub_spec(hub as int, other as int, amount as int, rate as int)->Ok_0.hub_after as int) == 0,
        !sell ==> (hub * other) % (buy_hub_spec(hub as int, other as int, amount as int, rate as int)->Ok_0.other_after as int) == 0,
    ensures
        ({
            let h = if sell {
                sell_hub_spec(hub as int, other as int, amount as int, rate as int)->Ok_0
            } else {
                buy_hub_spec(hub as int, other as int, amount as int, rate as int)->Ok_0
            };
            h.hub_after * h.other_after >= hub * other
        }),
{
    if sell {
        lemma_sell_hub_product(hub, other, amount, rate);
        let h = sell_hub_spec(hub as int, other as int, amount as int, rate as int)->Ok_0;
        lemma_floor_product(hub * other, h.hub_after as int);
    } else {
        lemma_buy_hub_product(hub, other, amount, rate);
        let h = buy_hub_spec(hub as int, other as int, amount as int, rate as int)->Ok_0;
        assert(h.hub_after * h.other_after == h.other_after * h.hub_after) by (nonlinear_arith);
        lemma_floor_product(hub * other, h.other_after as int);
    }
}

/// A trade between two non-hub assets runs exactly as two single-hop trades on
/// the same market: the first into the hub asset, the second out of it with the
/// first one's output. It succeeds when both do, pays out what the second pays
/// out, and charges the fees of both.
pub proof fn lemma_double_hop_composes(m: Market, input: u64, output: u64, amount: u128)
    requires
        m.wf(),
        input != output,
        input != m.params.hub,
        output != m.params.hub,
    ensures
        ({
            let hub = m.params.hub;
            let first = then_quote(m.route_spec(input, hub, amount), false);
            let whole = then_quote(m.route_spec(input, output, amount), false);
            &&& !m.has_pool(output) ==> whole == Err::<crate::market::SwapQuote, CoreError>(CoreError::NotFound)
            &&& m.has_pool(output) ==> {
                &&& first is Err ==> whole == first
                &&& first is Ok ==> {
                    let second = then_quote(m.route_spec(hub, output, first->Ok_0.amount), false);
                    &&& second is Err ==> whole == second
                    &&& second is Ok ==> (whole is Ok <==> first->Ok_0.fee + second->Ok_0.fee <= u128::MAX)
                    &&& whole is Ok ==> {
                        &&& whole->Ok_0.amount == second->Ok_0.amount
                        &&& whole->Ok_0.fee == first->Ok_0.fee + second->Ok_0.fee
                    }
                }
            }
        }),
{
}

/// A liquidity position last claimed two years or more ago accrues nothing.
pub proof fn lemma_liquidity_cap(h: Seq<RateChange>, held: u128, last: u64, now: u64, total: u128)
    requires
        last <= now,
        now - last >= TWO_YEARS,
    ensures
        accrual_spec(h, held, last, now, total) == Ok::<u128, CoreError>(0),
{
}

/// A stake last claimed two years or more ago accrues exactly 1.
pub proof fn lemma_staking_cap(staked: u128, last: u64, now: u64, total: u128, rate: u128)
    requires
        last <= now,
        now - last >= TWO_YEARS,
    ensures
        stake_reward_spec(staked, last, now, total, rate) == Ok::<u128, CoreError>(1),
{
}

/// `b * ceil(a / b)` is at least `a`.
proof fn lemma_ceil_covers(a: int, b: int)
    requires
        0 <= a,
        0 < b,
    ensures
        a <= b * ((a + b - 1) / b),
{
    lemma_fundamental_div_mod(a + b - 1, b);
    lemma_mod_pos_bound(a + b - 1, b);
}

/// A deposit never mints more shares than its proportion of the reserve product:
/// `minted * hub * other <= shares * hub_in * other_in`.
pub proof fn lemma_minted_within_proportion(hub: u128, other: u128, shares: u128, hub_in: u128, other_in: u128)
    requires
        hub_in > 0,
        other_in > 0,
        minted_spec(hub as int, other as int, shares as int, hub_in as int, other_in as int) is Ok,
    ensures
        minted_spec(hub as int, other as int, shares as int, hub_in as int, other_in as int)->Ok_0 * (hub * other)
            <= shares * (hub_in * other_in),
{
    let e = hub * other;
    let d = hub_in * other_in;
    assert(hub_in * other_in > 0) by (nonlinear_arith) requires hub_in > 0, other_in > 0;
    let inv = (e * 1000 + d - 1) / d;
    lemma_ceil_covers(e * 1000, d);
    let q = shares as int / inv;
    assert(inv > 0);
    lemma_fundamental_div_mod(shares as int, inv);
    lemma_mod_pos_bound(shares as int, inv);
    assert(q * inv <= shares);
    assert(q * 1000 * e <= q * (inv * d)) by (nonlinear_arith)
        requires e * 1000 <= d * inv, q >= 0;
    assert(q * (inv * d) <= shares * d) by (nonlinear_arith)
        requires q * inv <= shares, d > 0, q >= 0, inv > 0;
}

/// A redemption never pays out more than the redeemed shares' proportion of
/// each reserve at the time it completes: `paid * shares <= reserve * amount`.
pub proof fn lemma_redeem_within_proportion(hub: u128, other: u128, shares: u128, amount: u128)
    requires
        redeem_spec(hub as int, other as int, shares as int, amount as int) matches Ok(Some(_)),
    ensures
        ({
            let (hub_out, other_out) = redeem_spec(hub as int, other as int, shares as int, amount as int)->Ok_0->Some_0;
            &&& hub_out * shares <= hub * amount
            &&& other_out * shares <= other * amount
        }),
{
    let a = shares * 1000;
    let inv = (a + amount - 1) / (amount as int);
    lemma_ceil_covers(a, amount as int);
    assert(inv > 0);
    lemma_fundamental_div_mod(hub as int, inv);
    lemma_mod_pos_bound(hub as int, inv);
    lemma_fundamental_div_mod(other as int, inv);
    lemma_mod_pos_bound(other as int, inv);
    let qh = hub as int / inv;
    let qo = other as int / inv;
    assert(qh * 1000 * shares <= qh * (inv * amount)) by (nonlinear_arith)
        requires shares * 1000 <= amount * inv, qh >= 0;
    assert(qh * (inv * amount) <= hub * amount) by (nonlinear_arith)
        requires qh * inv <= hub, amount >= 0, qh >= 0;
    assert(qo * 1000 * shares <= qo * (inv * amount)) by (nonlinear_arith)
        requires shares * 1000 <= amount * inv, qo >= 0;
    assert(qo * (inv * amount) <= other * amount) by (nonlinear_arith)
        requires qo * inv <= other, amount >= 0, qo >= 0;
}

/// The hub input a reverse quote names, sold forward into the same pool, pays out
/// at least the desired amount; the forward trade can fail only by overflow.
pub proof fn lemma_reverse_sell_hub_covers(hub: u128, other: u128, desired: u128, rate: u128)
    requires
        reverse_sell_hub_spec(hub as int, other as int, desired as int, rate as int) is Ok,
    ensures
        ({
            let a = reverse_sell_hub_spec(hub as int, other as int, desired as int, rate as int)->Ok_0.amount;
            let f = sell_hub_spec(hub as int, other as int, a as int, rate as int);
            &&& f is Err ==> f == Err::<crate::swap::Hop, CoreError>(CoreError::ArithmeticFault)
            &&& f is Ok ==> f->Ok_0.amount >= desired
        }),
{
    let k = hub * other;
    let t = other - desired;
    let c = ceil_div_spec(k, t);
    let net = c - hub;
    lemma_ceil_bounds(k, t);
    assert(hub * other == other * hub) by (nonlinear_arith);
    crate::arith::lemma_product_quotient_grows(other as int, hub as int, t);
    let a = ceil_div_spec(net * 10000, 10000 - rate);
    lemma_gross_up(net, rate as int);
    let f = sell_hub_spec(hub as int, other as int, a, rate as int);
    if f is Ok {
        let net_f = a - fee_spec(a, rate as int);
        let hub_after_f = hub + net_f;
        assert(0 < c <= hub_after_f);
        lemma_ceil_reserve(k, t);
        lemma_div_is_ordered_by_denominator(k, c, hub_after_f);
    }
}

/// The other-asset input a reverse quote names, sold forward into the same pool,
/// pays out at least the desired hub amount; the forward trade can fail only by
/// overflow.
pub proof fn lemma_reverse_buy_hub_covers(hub: u128, other: u128, desired: u128, rate: u128)
    requires
        reverse_buy_hub_spec(hub as int, other as int, desired as int, rate as int) is Ok,
    ensures
        ({
            let a = reverse_buy_hub_spec(hub as int, other as int, desired as int, rate as int)->Ok_0.amount;
            let f = buy_hub_spec(hub as int, other as int, a as int, rate as int);
            &&& f is Err ==> f == Err::<crate::swap::Hop, CoreError>(CoreError::ArithmeticFault)
            &&& f is Ok ==> f->Ok_0.amount >= desired
        }),
{
    let k = hub * other;
    let g = ceil_div_spec(desired * 10000, 10000 - rate);
    let t = hub - g;
    let c = ceil_div_spec(k, t);
    lemma_gross_up(desired as int, rate as int);
    assert(0 <= hub * other) by (nonlinear_arith) requires 0 <= hub, 0 <= other;
    lemma_ceil_bounds(k, t);
    crate::arith::lemma_product_quotient_grows(hub as int, other as int, t);
    let a = c - other;
    assert(a >= 1);
    assert(c > 0);
    let f = buy_hub_spec(hub as int, other as int, a, rate as int);
    if f is Ok {
        lemma_ceil_reserve(k, t);
        let received = hub - k / c;
        assert(received >= g);
        assert(0 <= received * rate) by (nonlinear_arith) requires 0 <= received, 0 <= rate;
        lemma_fundamental_div_mod(received * rate, 10000);
        lemma_mod_pos_bound(received * rate, 10000);
        let fee = fee_spec(received, rate as int);
        assert((received - fee) * 10000 >= desired * 10000) by (nonlinear_arith)
            requires
                10000 * fee <= received * rate,
                g * (10000 - rate) >= desired * 10000,
                received >= g,
                0 <= rate < 10000;
    }
}

/// A single-hop reverse quote names an input whose forward trade on the same
/// market pays out at least the desired amount, unless the forward trade
/// overflows.
pub proof fn lemma_reverse_quote_covers(m: Market, input: u64, output: u64, desired: u128)
    requires
        m.wf(),
        input == m.params.hub || output == m.params.hub,
        then_quote(m.reverse_route_spec(input, output, desired), true) is Ok,
    ensures
        ({
            let q = then_quote(m.reverse_route_spec(input, output, desired), true)->Ok_0;
            let s = m.swap_spec(input, output, q.amount);
            &&& s is Err ==> s == Err::<crate::market::SwapQuote, CoreError>(CoreError::ArithmeticFault)
            &&& s is Ok ==> s->Ok_0.amount >= desired
        }),
{
    let rate = m.params.fee_rate;
    if output == m.params.hub {
        let p = m.pool(input);
        lemma_reverse_buy_hub_covers(p.hub_balance, p.other_balance, desired, rate);
    } else {
        let p = m.pool(output);
        lemma_reverse_sell_hub_covers(p.hub_balance, p.other_balance, desired, rate);
    }
}

} // verus!
