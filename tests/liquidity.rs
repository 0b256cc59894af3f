use hub_amm::error::CoreError;
use hub_amm::market::{Market, Params};
use hub_amm::pool::RateChange;
use hub_amm::provide::{redeem_shares, shares_for_deposit, ProviderPosition};
use hub_amm::reward::{accrued_reward, get_reward_rate_changes_since, TWO_YEARS};
use hub_amm::transfer::{Asset, Transfer, TransferKind};

const HUB: u64 = 1;

fn market() -> (Market, ProviderPosition) {
    let mut m = Market::new(Params { hub: HUB, fee_rate: 100, cooldown: 60 }).unwrap();
    let (founder, _) = m.try_initialize_pool(2, 1_000_000_000, 1_000_000_000, 0).unwrap();
    (m, founder)
}

fn pool(m: &Market, asset: u64) -> (u128, u128, u128) {
    let p = m.pools.iter().find(|p| p.asset == asset).unwrap();
    (p.hub_balance, p.other_balance, p.shares)
}

fn t(kind: TransferKind, asset: Asset, amount: u128) -> Transfer {
    Transfer { kind, asset, amount }
}

#[test]
fn initialize_pool_mints_hub_deposit_and_keeps_dust() {
    let mut m = Market::new(Params { hub: HUB, fee_rate: 100, cooldown: 60 }).unwrap();
    let (pos, transfers) = m.try_initialize_pool(2, 1_000_000_000, 500, 42).unwrap();
    assert_eq!(pos.shares_held, 990_000_000);
    assert_eq!(pos.last_claim, 42);
    assert!(pos.pending.is_empty());
    assert_eq!(pool(&m, 2), (1_000_000_000, 500, 1_000_000_000));
    assert_eq!(m.pools[0].reward_rate, vec![RateChange { rate: 1_000_000, since: 42 }]);
    assert_eq!(
        transfers,
        vec![
            t(TransferKind::Collect, Asset::Hub, 1_000_000_000),
            t(TransferKind::Collect, Asset::Paired(2), 500),
        ]
    );
}

#[test]
fn initialize_pool_rejections() {
    let (mut m, _) = market();
    assert_eq!(m.try_initialize_pool(2, 1_000_000_000, 1, 0).err(), Some(CoreError::InvalidInput));
    assert_eq!(m.try_initialize_pool(HUB, 1_000_000_000, 1, 0).err(), Some(CoreError::InvalidInput));
    assert_eq!(m.try_initialize_pool(3, 99_999_999, 1, 0).err(), Some(CoreError::InvalidInput));
    assert_eq!(m.try_initialize_pool(3, 100_000_000, 0, 0).err(), Some(CoreError::InvalidInput));
    assert!(m.try_initialize_pool(3, 100_000_000, 1, 0).is_ok());
    assert_eq!(m.pools.len(), 2);
}

#[test]
fn add_liquidity_pays_reward_then_mints_shares() {
    let (mut m, mut founder) = market();
    let transfers = m.try_add_liquidity(2, &mut founder, 100_000_000, 100_000_000, 100).unwrap();
    assert_eq!(
        transfers,
        vec![
            t(TransferKind::Mint, Asset::Reward, 99_000_000),
            t(TransferKind::Collect, Asset::Hub, 100_000_000),
            t(TransferKind::Collect, Asset::Paired(2), 100_000_000),
        ]
    );
    assert_eq!(founder.shares_held, 990_000_000 + 10_000_000);
    assert_eq!(founder.last_claim, 100);
    assert_eq!(pool(&m, 2), (1_100_000_000, 1_100_000_000, 1_010_000_000));
}

#[test]
fn add_liquidity_rejections() {
    let (mut m, _) = market();
    let mut p = ProviderPosition::new(0);
    assert_eq!(m.try_add_liquidity(9, &mut p, 1, 1, 0), Err(CoreError::NotFound));
    assert_eq!(m.try_add_liquidity(2, &mut p, 0, 1, 0), Err(CoreError::InvalidInput));
    assert_eq!(
        m.try_add_liquidity(2, &mut p, 2_000_000_000, 1_000_000_000, 0),
        Err(CoreError::InsufficientLiquidity)
    );
    assert_eq!(m.try_add_liquidity(2, &mut p, 1, 1, 0), Err(CoreError::InvalidInput));
    assert_eq!(p.shares_held, 0);
    assert_eq!(pool(&m, 2), (1_000_000_000, 1_000_000_000, 1_000_000_000));
}

#[test]
fn share_math_values() {
    assert_eq!(shares_for_deposit(1_000_000_000, 1_000_000_000, 1_000_000_000, 100_000_000, 100_000_000), Ok(10_000_000));
    assert_eq!(redeem_shares(1_100_000_000, 1_100_000_000, 1_010_000_000, 10_000_000), Ok(Some((10_891_000, 10_891_000))));
    assert_eq!(redeem_shares(1_000_000_000, 1_000_000_000, 1_000_000_000, 500), Ok(None));
    assert_eq!(redeem_shares(1, 1, 1, 0), Err(CoreError::ArithmeticFault));
}

#[test]
fn deposit_request_and_complete_round_trip() {
    let (mut m, _) = market();
    let mut p = ProviderPosition::new(0);
    let transfers = m.try_add_liquidity(2, &mut p, 100_000_000, 100_000_000, 0).unwrap();
    assert_eq!(transfers.len(), 2);
    assert_eq!(p.shares_held, 10_000_000);
    let transfers = m.try_request_withdraw(2, &mut p, 10_000_000, 0).unwrap();
    assert!(transfers.is_empty());
    assert_eq!(p.shares_held, 0);
    assert_eq!(m.try_complete_withdraw(2, &mut p, 59), Err(CoreError::NothingMatured));
    let transfers = m.try_complete_withdraw(2, &mut p, 61).unwrap();
    // the proportion is taken of the reserve product, so the payout is far below the deposit
    assert_eq!(
        transfers,
        vec![
            t(TransferKind::Send, Asset::Hub, 10_891_000),
            t(TransferKind::Send, Asset::Paired(2), 10_891_000),
        ]
    );
    assert!(p.pending.is_empty());
    assert_eq!(pool(&m, 2), (1_100_000_000 - 10_891_000, 1_100_000_000 - 10_891_000, 1_000_000_000));
}

#[test]
fn withdrawal_matures_only_after_cooldown() {
    let (mut m, mut founder) = market();
    let transfers = m.try_request_withdraw(2, &mut founder, 500, 1_000).unwrap();
    assert_eq!(transfers, vec![t(TransferKind::Mint, Asset::Reward, 990_000_000)]);
    assert_eq!(founder.shares_held, 990_000_000 - 500);
    assert_eq!(m.try_complete_withdraw(2, &mut founder, 1_030), Err(CoreError::NothingMatured));
    assert_eq!(founder.pending.len(), 1);
    let transfers = m.try_complete_withdraw(2, &mut founder, 1_061).unwrap();
    assert!(founder.pending.is_empty());
    // 500 of 10^9 shares rounds to nothing, so the shares come back
    assert!(transfers.is_empty());
    assert_eq!(founder.shares_held, 990_000_000);
}

#[test]
fn withdrawal_request_rejections() {
    let (m, mut founder) = market();
    assert_eq!(m.try_request_withdraw(2, &mut founder, 0, 10), Err(CoreError::InvalidInput));
    assert_eq!(m.try_request_withdraw(2, &mut founder, 990_000_001, 10), Err(CoreError::InsufficientBalance));
    assert_eq!(m.try_request_withdraw(5, &mut founder, 1, 10), Err(CoreError::NotFound));
    assert_eq!(founder.shares_held, 990_000_000);
    assert!(founder.pending.is_empty());
}

#[test]
fn complete_withdraw_without_requests_is_nothing_matured() {
    let (mut m, mut founder) = market();
    assert_eq!(m.try_complete_withdraw(2, &mut founder, 10_000), Err(CoreError::NothingMatured));
    assert_eq!(m.try_complete_withdraw(7, &mut founder, 10_000), Err(CoreError::NotFound));
}

#[test]
fn claim_pays_time_weighted_reward() {
    let (m, mut founder) = market();
    assert_eq!(m.query_pool_info(2, Some(&founder), 100), Ok(99_000_000));
    assert_eq!(m.query_pool_info(2, None, 100), Ok(0));
    assert_eq!(m.query_pool_info(4, None, 100), Err(CoreError::NotFound));
    let transfers = m.try_claim_provide(2, &mut founder, 50).unwrap();
    assert_eq!(transfers, vec![t(TransferKind::Mint, Asset::Reward, 49_500_000)]);
    assert_eq!(founder.last_claim, 50);
    assert_eq!(m.query_pool_info(2, Some(&founder), 100), Ok(49_500_000));
}

#[test]
fn accrual_walks_rate_segments() {
    let h = vec![RateChange { rate: 10, since: 0 }, RateChange { rate: 20, since: 100 }];
    // 50 * 50 * 20 / 100 + 50 * 50 * 10 / 100
    assert_eq!(accrued_reward(&h, 50, 50, 150, 100), Ok(750));
    assert_eq!(accrued_reward(&h, 50, 120, 150, 100), Ok(300));
    assert_eq!(accrued_reward(&h, 50, 150, 150, 100), Ok(0));
}

#[test]
fn accrual_grows_with_time_and_shares() {
    let h = vec![RateChange { rate: 10, since: 0 }, RateChange { rate: 20, since: 100 }];
    let a = accrued_reward(&h, 50, 50, 120, 100).unwrap();
    let b = accrued_reward(&h, 50, 50, 200, 100).unwrap();
    let c = accrued_reward(&h, 80, 50, 200, 100).unwrap();
    assert!(a <= b && b <= c);
    assert_eq!((a, b, c), (450, 1_250, 2_000));
}

#[test]
fn accrual_stops_at_two_year_cap() {
    let h = vec![RateChange { rate: 1_000_000, since: 0 }];
    assert_eq!(TWO_YEARS, 63_072_000);
    assert_eq!(accrued_reward(&h, 100, 0, TWO_YEARS, 1_000), Ok(0));
    assert_eq!(accrued_reward(&h, 100, 0, TWO_YEARS - 1, 1_000), Ok(6_307_199_900_000));
    let (m, mut founder) = market();
    let transfers = m.try_claim_provide(2, &mut founder, TWO_YEARS + 5).unwrap();
    assert!(transfers.is_empty());
    assert_eq!(founder.last_claim, TWO_YEARS + 5);
}

#[test]
fn accrual_faults() {
    let h = vec![RateChange { rate: 1, since: 10 }];
    assert_eq!(accrued_reward(&h, 1, 20, 19, 1), Err(CoreError::ArithmeticFault));
    assert_eq!(accrued_reward(&h, 1, 0, 5, 1), Err(CoreError::ArithmeticFault));
    assert_eq!(accrued_reward(&h, 1, 10, 20, 0), Err(CoreError::ArithmeticFault));
    let big = vec![RateChange { rate: u128::MAX, since: 0 }];
    assert_eq!(accrued_reward(&big, 2, 0, 1, 1), Err(CoreError::ArithmeticFault));
}

#[test]
fn rate_changes_since_last_claim_newest_first() {
    let a = RateChange { rate: 10, since: 0 };
    let b = RateChange { rate: 20, since: 100 };
    let c = RateChange { rate: 30, since: 200 };
    let h = vec![a, b, c];
    assert_eq!(get_reward_rate_changes_since(&h, 150), vec![c, b]);
    assert_eq!(get_reward_rate_changes_since(&h, 100), vec![c, b]);
    assert_eq!(get_reward_rate_changes_since(&h, 250), vec![c]);
    assert_eq!(get_reward_rate_changes_since(&h, 0), vec![c, b, a]);
    assert_eq!(get_reward_rate_changes_since(&vec![], 0), vec![]);
}

#[test]
fn share_rounding_favours_the_pool() {
    let minted = shares_for_deposit(1_000_000_000, 1_000_000_000, 1_000_000_000, 100_000_000, 100_000_000).unwrap();
    assert!(minted * 1_000_000_000_000_000_000 <= 1_000_000_000 * 10_000_000_000_000_000);
    let minted = shares_for_deposit(3_000_000_000, 7_000_000_000, 1_234_567_891, 12_345_678, 9_876_543).unwrap();
    assert!(minted * (3_000_000_000 * 7_000_000_000) <= 1_234_567_891 * (12_345_678 * 9_876_543));
    let (h, o) = redeem_shares(1_100_000_000, 1_100_000_000, 1_010_000_000, 10_000_000).unwrap().unwrap();
    assert!(h * 1_010_000_000 <= 1_100_000_000 * 10_000_000);
    assert!(o * 1_010_000_000 <= 1_100_000_000 * 10_000_000);
}

#[test]
fn redemption_keeps_dust_shares() {
    assert_eq!(
        redeem_shares(1_000_000_000, 1_000_000_000, 1_000_000_000, 990_000_001),
        Err(CoreError::InsufficientLiquidity)
    );
    let (mut m, mut founder) = market();
    m.try_request_withdraw(2, &mut founder, 990_000_000, 0).unwrap();
    let transfers = m.try_complete_withdraw(2, &mut founder, 60).unwrap();
    assert_eq!(transfers.len(), 2);
    assert_eq!(pool(&m, 2).2, 10_000_000);
    assert_eq!(founder.shares_held, 0);
}
