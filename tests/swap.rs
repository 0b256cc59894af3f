use hub_amm::error::CoreError;
use hub_amm::market::{Market, Params, SwapQuote};
use hub_amm::swap::{buy_hub, reverse_buy_hub, reverse_sell_hub, sell_hub};
use hub_amm::transfer::{Asset, Transfer, TransferKind};

const HUB: u64 = 1;

fn market() -> Market {
    let mut m = Market::new(Params { hub: HUB, fee_rate: 100, cooldown: 60 }).unwrap();
    m.try_initialize_pool(2, 1_000_000_000, 1_000_000_000, 0).unwrap();
    m.try_initialize_pool(3, 2_000_000_000, 1_000_000_000, 0).unwrap();
    m
}

fn pool_balances(m: &Market, asset: u64) -> (u128, u128, u128) {
    let p = m.pools.iter().find(|p| p.asset == asset).unwrap();
    (p.hub_balance, p.other_balance, p.volume)
}

#[test]
fn sell_hub_one_percent_fee_example() {
    let h = sell_hub(1_000_000, 1_000_000, 10_000, 100).unwrap();
    assert_eq!(h.fee, 100);
    assert_eq!(h.hub_after, 1_009_900);
    // floor(10^12 / 1,009,900) = 990,197
    assert_eq!(h.other_after, 990_197);
    assert_eq!(h.amount, 9_803);
    assert_eq!(h.price_impact, 99);
    assert_eq!(h.volume, 10_000);
}

#[test]
fn buy_hub_takes_fee_from_output() {
    let h = buy_hub(1_000_000, 1_000_000, 10_000, 100).unwrap();
    assert_eq!(h.other_after, 1_010_000);
    assert_eq!(h.hub_after, 990_099);
    assert_eq!(h.fee, 99);
    assert_eq!(h.amount, 9_802);
    assert_eq!(h.price_impact, 100);
    assert_eq!(h.volume, 9_901);
}

#[test]
fn legs_reject_zero_and_oversized_amounts() {
    assert_eq!(sell_hub(1_000, 1_000, 0, 100), Err(CoreError::InvalidInput));
    assert_eq!(sell_hub(1_000, 1_000, 1_001, 100), Err(CoreError::InsufficientLiquidity));
    assert_eq!(buy_hub(1_000, 1_000, 1_001, 100), Err(CoreError::InsufficientLiquidity));
    assert_eq!(reverse_sell_hub(1_000, 1_000, 1_000, 100), Err(CoreError::InsufficientLiquidity));
    assert_eq!(reverse_buy_hub(1_000, 1_000, 1_000, 100), Err(CoreError::InsufficientLiquidity));
}

#[test]
fn legs_report_overflow() {
    assert_eq!(sell_hub(u128::MAX, 2, 1, 0), Err(CoreError::ArithmeticFault));
    assert_eq!(buy_hub(u128::MAX, 2, 1, 0), Err(CoreError::ArithmeticFault));
}

#[test]
fn leg_product_never_grows_and_rounding_is_bounded() {
    let h = sell_hub(1_000_000, 1_000_000, 10_000, 100).unwrap();
    let before = 1_000_000u128 * 1_000_000;
    let after = h.hub_after * h.other_after;
    assert!(after <= before);
    assert!(before < after + h.hub_after);
    // exact division keeps the product: 100 * 100 / (100 + 25) = 80
    let h = sell_hub(100, 100, 25, 0).unwrap();
    assert_eq!(h.hub_after * h.other_after, 100 * 100);
}

#[test]
fn single_hop_simulation_matches_leg() {
    let m = market();
    let q = m.query_swap_simulation(HUB, 2, 1_000_000).unwrap();
    assert_eq!(q, SwapQuote { amount: 989_021, fee: 10_000, price_impact: 10 });
    let q = m.query_swap_simulation(2, HUB, 1_000_000).unwrap();
    assert_eq!(q, SwapQuote { amount: 989_011, fee: 9_990, price_impact: 10 });
}

#[test]
fn double_hop_composes_two_single_hops() {
    let m = market();
    let first = m.query_swap_simulation(2, HUB, 1_000_000).unwrap();
    let second = m.query_swap_simulation(HUB, 3, first.amount).unwrap();
    let whole = m.query_swap_simulation(2, 3, 1_000_000).unwrap();
    assert_eq!(whole.amount, second.amount);
    assert_eq!(whole.amount, 489_321);
    assert_eq!(whole.fee, first.fee + second.fee);
    assert_eq!(whole.fee, 9_990 + 9_890);
    assert_eq!(whole.price_impact, 10);
}

#[test]
fn swap_rejects_same_asset_and_missing_pool() {
    let mut m = market();
    assert_eq!(m.try_swap(2, 2, 10), Err(CoreError::InvalidInput));
    assert_eq!(m.try_swap(HUB, 9, 10), Err(CoreError::NotFound));
    assert_eq!(m.try_swap(9, 3, 10), Err(CoreError::NotFound));
    assert_eq!(m.query_swap_simulation(HUB, 9, 10), Err(CoreError::NotFound));
    assert_eq!(m.query_reverse_swap(3, 3, 10), Err(CoreError::InvalidInput));
    assert_eq!(pool_balances(&m, 2), (1_000_000_000, 1_000_000_000, 0));
}

#[test]
fn swap_updates_pools_and_fee_balance() {
    let mut m = market();
    let (q, transfers) = m.try_swap(HUB, 2, 1_000_000).unwrap();
    assert_eq!(q.amount, 989_021);
    assert_eq!(transfers, vec![Transfer { kind: TransferKind::Send, asset: Asset::Paired(2), amount: 989_021 }]);
    assert_eq!(pool_balances(&m, 2), (1_000_990_000, 999_010_979, 1_000_000));
    assert_eq!(m.fee_balance, 10_000);
    let (q, transfers) = m.try_swap(3, HUB, 1_000).unwrap();
    assert_eq!(m.fee_balance, 10_000 + q.fee);
    assert_eq!(transfers, vec![Transfer { kind: TransferKind::Send, asset: Asset::Hub, amount: q.amount }]);
}

#[test]
fn double_hop_swap_moves_both_pools() {
    let mut m = market();
    let (q, transfers) = m.try_swap(2, 3, 1_000_000).unwrap();
    assert_eq!(q.amount, 489_321);
    assert_eq!(transfers, vec![Transfer { kind: TransferKind::Send, asset: Asset::Paired(3), amount: 489_321 }]);
    assert_eq!(pool_balances(&m, 2), (999_000_999, 1_001_000_000, 999_001));
    assert_eq!(pool_balances(&m, 3), (2_000_979_121, 999_510_679, 989_011));
    assert_eq!(m.fee_balance, 9_990 + 9_890);
}

#[test]
fn failed_swap_leaves_everything_unchanged() {
    let mut m = market();
    assert_eq!(m.try_swap(HUB, 2, 2_000_000_000), Err(CoreError::InsufficientLiquidity));
    assert_eq!(pool_balances(&m, 2), (1_000_000_000, 1_000_000_000, 0));
    assert_eq!(m.fee_balance, 0);
}

#[test]
fn reverse_simulation_single_and_double() {
    let m = market();
    let q = m.query_reverse_swap(2, HUB, 1_000_000).unwrap();
    assert_eq!(q, SwapQuote { amount: 1_011_124, fee: 10_102, price_impact: 11 });
    assert_eq!(m.query_swap_simulation(2, HUB, q.amount).unwrap().amount, 1_000_002);
    let q = m.query_reverse_swap(HUB, 3, 1_000_000).unwrap();
    assert_eq!(q, SwapQuote { amount: 2_022_226, fee: 20_223, price_impact: 10 });
    assert_eq!(m.query_swap_simulation(HUB, 3, q.amount).unwrap().amount, 1_000_001);
    let q = m.query_reverse_swap(2, 3, 1_000_000).unwrap();
    assert_eq!(q, SwapQuote { amount: 2_046_834, fee: 20_427 + 20_223, price_impact: 21 });
    assert!(m.query_swap_simulation(2, 3, q.amount).unwrap().amount >= 1_000_000);
}

#[test]
fn reverse_quote_buys_the_desired_output() {
    let h = reverse_sell_hub(1_000_000, 1_000_000, 20_000, 100).unwrap();
    assert_eq!(h.amount, 20_616);
    assert_eq!(h.fee, 207);
    assert_eq!(h.hub_after, 1_020_409);
    assert_eq!(sell_hub(1_000_000, 1_000_000, h.amount, 100).unwrap().amount, 20_002);
    let h = reverse_buy_hub(1_000_000_000, 1_000_000_000, 1_000_000, 100).unwrap();
    assert_eq!(h.amount, 1_011_124);
    assert_eq!(buy_hub(1_000_000_000, 1_000_000_000, h.amount, 100).unwrap().amount, 1_000_002);
}

#[test]
fn reverse_quote_refuses_full_fee() {
    assert_eq!(reverse_sell_hub(1_000_000, 1_000_000, 20_000, 10_000), Err(CoreError::InvalidInput));
    assert_eq!(reverse_buy_hub(1_000_000, 1_000_000, 20_000, 10_000), Err(CoreError::InvalidInput));
}

#[test]
fn market_refuses_fee_above_one_hundred_percent() {
    assert!(Market::new(Params { hub: HUB, fee_rate: 10_001, cooldown: 60 }).is_err());
}

#[test]
fn simulation_predicts_counter_overflow() {
    let mut m = market();
    m.fee_balance = u128::MAX;
    assert_eq!(m.query_swap_simulation(HUB, 2, 1_000_000), Err(CoreError::ArithmeticFault));
    assert_eq!(m.try_swap(HUB, 2, 1_000_000), Err(CoreError::ArithmeticFault));
}
