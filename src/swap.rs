//! Constant-product trades against a single pool, forward and reverse.
use vstd::prelude::*;
use crate::arith::{
    ceil_div, ceil_div_spec, fee_spec, impact_spec, lemma_ceil_bounds, lemma_fee_bounded,
    lemma_gross_up, lemma_impact_bounded, lemma_product_quotient_bounded,
    lemma_product_quotient_grows, FEE_DENOMINATOR,
};
use crate::error::CoreError;

verus! {

/// What one leg of a trade does to a pool, and what it hands out or asks for.
#[derive(Clone, Copy, Debug, PartialEq, Eq, Structural)]
pub struct Hop {
    /// Hub-side reserve after the leg.
    pub hub_after: u128,
    /// Other-side reserve after the leg.
    pub other_after: u128,
    /// Forward: the amount paid out. Reverse: the amount the trader must put in.
    pub amount: u128,
    /// Fee kept by the protocol, in the hub asset.
    pub fee: u128,
    /// Price impact, scaled by 10000.
    pub price_impact: u128,
    /// Hub-asset volume the leg adds to the pool's counter.
    pub volume: u128,
}

/// Selling `amount` of the hub asset into a pool: the fee comes off the input,
/// the rest enters the pool and the invariant decides the payout. A sale larger
/// than the pool's own hub reserve is refused before anything is computed.
pub open spec fn sell_hub_spec(hub: int, other: int, amount: int, rate: int) -> Result<Hop, CoreError> {
    let fee = fee_spec(amount, rate);
    let hub_after = hub + (amount - fee);
    let other_after = hub * other / hub_after;
    if amount == 0 {
        Err(CoreError::InvalidInput)
    } else if hub < amount {
        Err(CoreError::InsufficientLiquidity)
    } else if amount * rate > u128::MAX || hub * other > u128::MAX || hub_after > u128::MAX
        || other == 0 || other_after * 10000 > u128::MAX {
        Err(CoreError::ArithmeticFault)
    } else {
        Ok(Hop {
            hub_after: hub_after as u128,
            other_after: other_after as u128,
            amount: (other - other_after) as u128,
            fee: fee as u128,
            price_impact: impact_spec(other_after, other) as u128,
            volume: amount as u128,
        })
    }
}

/// Buying the hub asset with `amount` of the other asset: the invariant decides
/// the hub amount that leaves the pool, and the fee comes off that output.
pub open spec fn buy_hub_spec(hub: int, other: int, amount: int, rate: int) -> Result<Hop, CoreError> {
    let other_after = other + amount;
    let hub_after = hub * other / other_after;
    let received = hub - hub_after;
    let fee = fee_spec(received, rate);
    if amount == 0 {
        Err(CoreError::InvalidInput)
    } else if other < amount {
        Err(CoreError::InsufficientLiquidity)
    } else if hub * other > u128::MAX || other_after > u128::MAX || received * rate > u128::MAX
        || hub == 0 || hub_after * 10000 > u128::MAX {
        Err(CoreError::ArithmeticFault)
    } else {
        Ok(Hop {
            hub_after: hub_after as u128,
            other_after: other_after as u128,
            amount: (received - fee) as u128,
            fee: fee as u128,
            price_impact: impact_spec(hub_after, hub) as u128,
            volume: received as u128,
        })
    }
}

/// The other-asset input that makes `buy_hub` pay out at least `desired`. The
/// hub amount leaving the pool is grossed up so that the fee taken from it still
/// leaves `desired`, and the pool's new other reserve is rounded up, so rounding
/// falls on the trader.
pub open spec fn reverse_buy_hub_spec(hub: int, other: int, desired: int, rate: int) -> Result<Hop, CoreError> {
    let gross = ceil_div_spec(desired * 10000, 10000 - rate);
    let hub_after = hub - gross;
    let other_after = ceil_div_spec(hub * other, hub_after);
    let required = other_after - other;
    if desired == 0 || rate >= 10000 {
        Err(CoreError::InvalidInput)
    } else if desired * 10000 > u128::MAX || hub * other > u128::MAX {
        Err(CoreError::ArithmeticFault)
    } else if gross >= hub {
        Err(CoreError::InsufficientLiquidity)
    } else if required == 0 || required > other {
        Err(CoreError::InsufficientLiquidity)
    } else if hub_after * 10000 > u128::MAX {
        Err(CoreError::ArithmeticFault)
    } else {
        Ok(Hop {
            hub_after: hub_after as u128,
            other_after: other_after as u128,
            amount: required as u128,
            fee: (gross - desired) as u128,
            price_impact: impact_spec(hub_after, hub) as u128,
            volume: gross as u128,
        })
    }
}

/// The hub-asset input, fee included, that makes `sell_hub` pay out at least
/// `desired`. The pool's new hub reserve is rounded up and the fee is grossed up
/// so that the fee taken from the input still leaves the net amount needed.
pub open spec fn reverse_sell_hub_spec(hub: int, other: int, desired: int, rate: int) -> Result<Hop, CoreError> {
    let other_after = other - desired;
    let hub_after = ceil_div_spec(hub * other, other_after);
    let net = hub_after - hub;
    let total = ceil_div_spec(net * 10000, 10000 - rate);
    if desired == 0 || rate >= 10000 {
        Err(CoreError::InvalidInput)
    } else if desired >= other {
        Err(CoreError::InsufficientLiquidity)
    } else if hub * other > u128::MAX || net * 10000 > u128::MAX || other_after * 10000 > u128::MAX {
        Err(CoreError::ArithmeticFault)
    } else if total == 0 || total > hub {
        Err(CoreError::InsufficientLiquidity)
    } else {
        Ok(Hop {
            hub_after: hub_after as u128,
            other_after: other_after as u128,
            amount: total as u128,
            fee: (total - net) as u128,
            price_impact: impact_spec(other_after, other) as u128,
            volume: total as u128,
        })
    }
}

/// One leg that sells the hub asset into a pool with reserves `hub` and `other`.
pub fn sell_hub(hub: u128, other: u128, amount: u128, rate: u128) -> (r: Result<Hop, CoreError>)
    requires
        rate <= FEE_DENOMINATOR,
    ensures
        r == sell_hub_spec(hub as int, other as int, amount as int, rate as int),
{
    if amount == 0 {
        return Err(CoreError::InvalidInput);
    }
    if hub < amount {
        return Err(CoreError::InsufficientLiquidity);
    }
    let scaled_fee = match amount.checked_mul(rate) {
        Some(v) => v,
        None => return Err(CoreError::ArithmeticFault),
    };
    let fee = scaled_fee / FEE_DENOMINATOR;
    proof {
        lemma_fee_bounded(amount as int, rate as int);
    }
    let k = match hub.checked_mul(other) {
        Some(v) => v,
        None => return Err(CoreError::ArithmeticFault),
    };
    let hub_after = match hub.checked_add(amount - fee) {
        Some(v) => v,
        None => return Err(CoreError::ArithmeticFault),
    };
    if other == 0 {
        return Err(CoreError::ArithmeticFault);
    }
    let other_after = k / hub_after;
    proof {
        lemma_product_quotient_bounded(hub as int, other as int, hub_after as int);
    }
    let scaled_other = match other_after.checked_mul(10000) {
        Some(v) => v,
        None => return Err(CoreError::ArithmeticFault),
    };
    proof {
        lemma_impact_bounded(other_after as int, other as int);
    }
    Ok(Hop {
        hub_after,
        other_after,
        amount: other - other_after,
        fee,
        price_impact: 10000 - scaled_other / other,
        volume: amount,
    })
}

/// One leg that buys the hub asset out of a pool with reserves `hub` and `other`.
pub fn buy_hub(hub: u128, other: u128, amount: u128, rate: u128) -> (r: Result<Hop, CoreError>)
    requires
        rate <= FEE_DENOMINATOR,
    ensures
        r == buy_hub_spec(hub as int, other as int, amount as int, rate as int),
{
    if amount == 0 {
        return Err(CoreError::InvalidInput);
    }
    if other < amount {
        return Err(CoreError::InsufficientLiquidity);
    }
    let k = match hub.checked_mul(other) {
        Some(v) => v,
        None => return Err(CoreError::ArithmeticFault),
    };
    let other_after = match other.checked_add(amount) {
        Some(v) => v,
        None => return Err(CoreError::ArithmeticFault),
    };
    let hub_after = k / other_after;
    proof {
        assert(hub * other == other * hub) by (nonlinear_arith);
        lemma_product_quotient_bounded(other as int, hub as int, other_after as int);
    }
    let received = hub - hub_after;
    let scaled_fee = match received.checked_mul(rate) {
        Some(v) => v,
        None => return Err(CoreError::ArithmeticFault),
    };
    let fee = scaled_fee / FEE_DENOMINATOR;
    proof {
        lemma_fee_bounded(received as int, rate as int);
    }
    if hub == 0 {
        return Err(CoreError::ArithmeticFault);
    }
    let scaled_hub = match hub_after.checked_mul(10000) {
        Some(v) => v,
        None => return Err(CoreError::ArithmeticFault),
    };
    proof {
        lemma_impact_bounded(hub_after as int, hub as int);
    }
    Ok(Hop {
        hub_after,
        other_after,
        amount: received - fee,
        fee,
        price_impact: 10000 - scaled_hub / hub,
        volume: received,
    })
}

/// The other-asset input that makes `buy_hub` pay out at least `desired`.
pub fn reverse_buy_hub(hub: u128, other: u128, desired: u128, rate: u128) -> (r: Result<Hop, CoreError>)
    ensures
        r == reverse_buy_hub_spec(hub as int, other as int, desired as int, rate as int),
{
    if desired == 0 || rate >= FEE_DENOMINATOR {
        return Err(CoreError::InvalidInput);
    }
    let scaled = match desired.checked_mul(FEE_DENOMINATOR) {
        Some(v) => v,
        None => return Err(CoreError::ArithmeticFault),
    };
    let k = match hub.checked_mul(other) {
        Some(v) => v,
        None => return Err(CoreError::ArithmeticFault),
    };
    let gross = match ceil_div(scaled, FEE_DENOMINATOR - rate) {
        Ok(v) => v,
        Err(e) => return Err(e),
    };
    proof {
        lemma_gross_up(desired as int, rate as int);
    }
    if gross >= hub {
        return Err(CoreError::InsufficientLiquidity);
    }
    let hub_after = hub - gross;
    let other_after = match ceil_div(k, hub_after) {
        Ok(v) => v,
        Err(e) => return Err(e),
    };
    proof {
        assert(hub * other == other * hub) by (nonlinear_arith);
        lemma_product_quotient_grows(hub as int, other as int, hub_after as int);
        lemma_ceil_bounds(k as int, hub_after as int);
    }
    let required = other_after - other;
    if required == 0 || required > other {
        return Err(CoreError::InsufficientLiquidity);
    }
    let scaled_hub = match hub_after.checked_mul(10000) {
        Some(v) => v,
        None => return Err(CoreError::ArithmeticFault),
    };
    proof {
        lemma_impact_bounded(hub_after as int, hub as int);
    }
    Ok(Hop {
        hub_after,
        other_after,
        amount: required,
        fee: gross - desired,
        price_impact: 10000 - scaled_hub / hub,
        volume: gross,
    })
}

/// The hub-asset input, fee included, that makes `sell_hub` pay out at least `desired`.
pub fn reverse_sell_hub(hub: u128, other: u128, desired: u128, rate: u128) -> (r: Result<Hop, CoreError>)
    ensures
        r == reverse_sell_hub_spec(hub as int, other as int, desired as int, rate as int),
{
    if desired == 0 || rate >= FEE_DENOMINATOR {
        return Err(CoreError::InvalidInput);
    }
    if desired >= other {
        return Err(CoreError::InsufficientLiquidity);
    }
    let k = match hub.checked_mul(other) {
        Some(v) => v,
        None => return Err(CoreError::ArithmeticFault),
    };
    let other_after = other - desired;
    let hub_after = match ceil_div(k, other_after) {
        Ok(v) => v,
        Err(e) => return Err(e),
    };
    proof {
        lemma_product_quotient_grows(other as int, hub as int, other_after as int);
        assert(hub * other == other * hub) by (nonlinear_arith);
        lemma_ceil_bounds(k as int, other_after as int);
    }
    let net = hub_after - hub;
    let scaled_net = match net.checked_mul(FEE_DENOMINATOR) {
        Some(v) => v,
        None => return Err(CoreError::ArithmeticFault),
    };
    let scaled_other = match other_after.checked_mul(10000) {
        Some(v) => v,
        None => return Err(CoreError::ArithmeticFault),
    };
    let total = match ceil_div(scaled_net, FEE_DENOMINATOR - rate) {
        Ok(v) => v,
        Err(e) => return Err(e),
    };
    proof {
        lemma_gross_up(net as int, rate as int);
    }
    if total == 0 || total > hub {
        return Err(CoreError::InsufficientLiquidity);
    }
    proof {
        lemma_impact_bounded(other_after as int, other as int);
    }
    Ok(Hop {
        hub_after,
        other_after,
        amount: total,
        fee: total - net,
        price_impact: 10000 - scaled_other / other,
        volume: total,
    })
}

} // verus!
