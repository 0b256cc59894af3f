//! Fixed-point helpers shared by the swap, liquidity and staking ledgers.
use vstd::prelude::*;
use vstd::arithmetic::div_mod::{
    lemma_div_is_ordered, lemma_div_is_ordered_by_denominator, lemma_div_multiples_vanish,
    lemma_fundamental_div_mod, lemma_fundamental_div_mod_converse,
};

verus! {

/// Implicit denominator of every fee rate and price-impact figure.
pub const FEE_DENOMINATOR: u128 = 10000;

/// Scale factor that compensates for truncation in share arithmetic.
pub const SHARE_SCALE: u128 = 1000;

/// `floor(amount * rate / 10000)`: the fee taken from `amount` at `rate`.
pub open spec fn fee_spec(amount: int, rate: int) -> int {
    amount * rate / 10000
}

/// `10000 - floor(after * 10000 / before)`: how far a reserve moved, scaled by 10000.
pub open spec fn impact_spec(after: int, before: int) -> int {
    10000 - after * 10000 / before
}

/// Ceiling of `a / b`.
pub open spec fn ceil_div_spec(a: int, b: int) -> int {
    (a + b - 1) / b
}

/// Ceiling division, which rounds in favour of the pool.
pub fn ceil_div(a: u128, b: u128) -> (r: Result<u128, crate::error::CoreError>)
    ensures
        b == 0 ==> r == Err::<u128, crate::error::CoreError>(crate::error::CoreError::ArithmeticFault),
        b > 0 ==> r == Ok::<u128, crate::error::CoreError>(ceil_div_spec(a as int, b as int) as u128),
        b > 0 ==> 0 <= ceil_div_spec(a as int, b as int) <= a,
{
    if b == 0 {
        return Err(crate::error::CoreError::ArithmeticFault);
    }
    let q = a / b;
    let m = a % b;
    proof {
        lemma_fundamental_div_mod(a as int, b as int);
        if m == 0 {
            lemma_fundamental_div_mod_converse(a + b - 1, b as int, q as int, b - 1);
            lemma_div_is_ordered_by_denominator(a as int, 1, b as int);
        } else {
            assert((q + 1) * b == q * b + b) by (nonlinear_arith);
            lemma_fundamental_div_mod_converse(a + b - 1, b as int, q + 1, m - 1);
            lemma_div_is_ordered_by_denominator(a as int, 2, b as int);
            lemma_div_is_ordered(0, a as int, b as int);
        }
    }
    if m == 0 {
        Ok(q)
    } else {
        Ok(q + 1)
    }
}

/// A fee at a rate of at most 100% never exceeds the amount it is taken from.
pub proof fn lemma_fee_bounded(amount: int, rate: int)
    requires
        0 <= amount,
        0 <= rate <= 10000,
    ensures
        0 <= fee_spec(amount, rate) <= amount,
{
    assert(0 <= amount * rate <= amount * 10000) by (nonlinear_arith)
        requires 0 <= amount, 0 <= rate <= 10000;
    lemma_div_is_ordered(0, amount * rate, 10000);
    lemma_div_is_ordered(amount * rate, amount * 10000, 10000);
    lemma_div_multiples_vanish(amount, 10000);
}

/// Dividing the product `a * b` by something at least `a` leaves at most `b`.
pub proof fn lemma_product_quotient_bounded(a: int, b: int, c: int)
    requires
        0 < a <= c,
        0 <= b,
    ensures
        0 <= a * b / c <= b,
        a * b / c <= a * b / a,
{
    assert(0 <= a * b) by (nonlinear_arith) requires 0 < a, 0 <= b;
    lemma_div_is_ordered_by_denominator(a * b, a, c);
    lemma_div_multiples_vanish(b, a);
    lemma_div_is_ordered(0, a * b, c);
}

/// Dividing the product `a * b` by something at most `a` leaves at least `b`.
pub proof fn lemma_product_quotient_grows(a: int, b: int, c: int)
    requires
        0 < c <= a,
        0 <= b,
    ensures
        b <= a * b / c,
{
    assert(0 <= a * b) by (nonlinear_arith) requires 0 < a, 0 <= b;
    lemma_div_is_ordered_by_denominator(a * b, c, a);
    lemma_div_multiples_vanish(b, a);
}

/// The price impact of moving a reserve from `before` down to `after` lies in `0 ..= 10000`.
pub proof fn lemma_impact_bounded(after: int, before: int)
    requires
        0 <= after <= before,
        0 < before,
    ensures
        0 <= after * 10000 / before <= 10000,
        0 <= impact_spec(after, before) <= 10000,
{
    lemma_product_quotient_bounded(before, 10000, before);
    assert(after * 10000 <= before * 10000) by (nonlinear_arith)
        requires 0 <= after <= before;
    assert(0 <= after * 10000) by (nonlinear_arith) requires 0 <= after;
    lemma_div_is_ordered(after * 10000, before * 10000, before);
    lemma_div_is_ordered(0, after * 10000, before);
    assert(before * 10000 == 10000 * before) by (nonlinear_arith);
    lemma_div_multiples_vanish(10000, before);
}

/// `b * ceil(a / b)` covers `a`, and `ceil(a / b)` never exceeds `a`.
pub proof fn lemma_ceil_bounds(a: int, b: int)
    requires
        0 <= a,
        0 < b,
    ensures
        a <= b * ceil_div_spec(a, b),
        0 <= ceil_div_spec(a, b) <= a,
        a / b <= ceil_div_spec(a, b),
{
    lemma_fundamental_div_mod(a + b - 1, b);
    vstd::arithmetic::div_mod::lemma_mod_pos_bound(a + b - 1, b);
    lemma_div_is_ordered(a, a + b - 1, b);
    lemma_div_is_ordered(0, a + b - 1, b);
    if a > 0 {
        assert(a + b - 1 <= a * b) by (nonlinear_arith) requires a >= 1, b >= 1;
        lemma_div_is_ordered(a + b - 1, a * b, b);
        assert(a * b == b * a) by (nonlinear_arith);
        lemma_div_multiples_vanish(a, b);
    } else {
        lemma_fundamental_div_mod_converse(b - 1, b, 0, b - 1);
    }
}

/// `ceil(k / t)` reserves on one side force the other side down to at most `t`:
/// `floor(k / c) <= t` for `c = ceil(k / t)`.
pub proof fn lemma_ceil_reserve(k: int, t: int)
    requires
        0 <= k,
        0 < t,
        0 < ceil_div_spec(k, t),
    ensures
        k / ceil_div_spec(k, t) <= t,
{
    let c = ceil_div_spec(k, t);
    lemma_ceil_bounds(k, t);
    lemma_fundamental_div_mod(k, c);
    vstd::arithmetic::div_mod::lemma_mod_pos_bound(k, c);
    let q = k / c;
    assert(q <= t) by (nonlinear_arith)
        requires c * q <= k, k <= t * c, c > 0;
}

/// The gross amount `ceil(net * 10000 / (10000 - rate))` still leaves at least
/// `net` once the fee at `rate` is taken from it, and is at least `net`.
pub proof fn lemma_gross_up(net: int, rate: int)
    requires
        0 <= net,
        0 <= rate < 10000,
    ensures
        net <= ceil_div_spec(net * 10000, 10000 - rate) <= net * 10000,
        ceil_div_spec(net * 10000, 10000 - rate) * (10000 - rate) >= net * 10000,
        ceil_div_spec(net * 10000, 10000 - rate)
            - fee_spec(ceil_div_spec(net * 10000, 10000 - rate), rate) >= net,
{
    let b = 10000 - rate;
    let g = ceil_div_spec(net * 10000, b);
    assert(0 <= net * 10000) by (nonlinear_arith) requires 0 <= net;
    lemma_ceil_bounds(net * 10000, b);
    assert(g * b == b * g) by (nonlinear_arith);
    assert(net <= g) by (nonlinear_arith)
        requires net * 10000 <= b * g, 0 < b <= 10000, 0 <= net;
    assert(0 <= g * rate) by (nonlinear_arith) requires 0 <= g, 0 <= rate;
    lemma_fundamental_div_mod(g * rate, 10000);
    vstd::arithmetic::div_mod::lemma_mod_pos_bound(g * rate, 10000);
    let f = fee_spec(g, rate);
    assert(10000 * f <= g * rate);
    assert((g - f) * 10000 >= net * 10000) by (nonlinear_arith)
        requires 10000 * f <= g * rate, net * 10000 <= b * g, b == 10000 - rate;
}

} // verus!
