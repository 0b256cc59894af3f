use hub_amm::error::CoreError;
use hub_amm::reward::TWO_YEARS;
use hub_amm::staking::{stake_reward, StakerPosition, StakingLedger};
use hub_amm::transfer::{Asset, Transfer, TransferKind};

const TOKEN: u64 = 7;

fn t(kind: TransferKind, amount: u128) -> Transfer {
    Transfer { kind, asset: Asset::Reward, amount }
}

fn staked_ledger() -> (StakingLedger, StakerPosition) {
    let mut ledger = StakingLedger::new(TOKEN, 1_000_000, 60);
    let mut pos = StakerPosition::new(0);
    let transfers = ledger.try_stake(&mut pos, TOKEN, 1_000_000, false, 0).unwrap();
    assert!(transfers.is_empty());
    (ledger, pos)
}

#[test]
fn self_only_pool_accrues_one_day() {
    assert_eq!(stake_reward(1_000_000, 0, 86_400, 1_000_000, 1_000_000), Ok(86_400_000_000));
    let (mut ledger, mut pos) = staked_ledger();
    assert_eq!(ledger.total_staked, 1_000_000);
    let transfers = ledger.try_claim_rewards(&mut pos, false, 86_400).unwrap();
    assert_eq!(transfers, vec![t(TransferKind::Mint, 86_400_000_000)]);
    assert_eq!(pos.last_claim, 86_400);
    assert_eq!(pos.staked_amount, 1_000_000);
    assert_eq!(ledger.total_staked, 1_000_000);
}

#[test]
fn compounding_adds_reward_to_stake_and_total() {
    let (mut ledger, mut pos) = staked_ledger();
    let transfers = ledger.try_claim_rewards(&mut pos, true, 86_400).unwrap();
    assert_eq!(transfers, vec![t(TransferKind::MintToLedger, 86_400_000_000)]);
    assert_eq!(pos.staked_amount, 1_000_000 + 86_400_000_000);
    assert_eq!(ledger.total_staked, 1_000_000 + 86_400_000_000);
}

#[test]
fn stake_pays_reward_before_deposit() {
    let (mut ledger, mut pos) = staked_ledger();
    let transfers = ledger.try_stake(&mut pos, TOKEN, 500, false, 10).unwrap();
    assert_eq!(transfers, vec![t(TransferKind::Mint, 10_000_000)]);
    assert_eq!(pos.staked_amount, 1_000_500);
    assert_eq!(ledger.total_staked, 1_000_500);
    let transfers = ledger.try_stake(&mut pos, TOKEN, 500, true, 20).unwrap();
    // 1,000,500 * 10 * 10^6 / 1,000,500
    assert_eq!(transfers, vec![t(TransferKind::MintToLedger, 10_000_000)]);
    assert_eq!(pos.staked_amount, 1_000_500 + 10_000_000 + 500);
    assert_eq!(ledger.total_staked, 1_000_500 + 10_000_000 + 500);
}

#[test]
fn stake_rejections() {
    let (mut ledger, mut pos) = staked_ledger();
    assert_eq!(ledger.try_stake(&mut pos, 8, 10, false, 5), Err(CoreError::Unauthorized));
    assert_eq!(ledger.try_stake(&mut pos, TOKEN, 0, false, 5), Err(CoreError::InvalidInput));
    assert_eq!(ledger.try_stake(&mut pos, TOKEN, u128::MAX, false, 0), Err(CoreError::ArithmeticFault));
    assert_eq!(ledger.try_claim_rewards(&mut pos, false, 0).unwrap(), vec![]);
    assert_eq!(pos.staked_amount, 1_000_000);
    assert_eq!(ledger.total_staked, 1_000_000);
}

#[test]
fn staking_cap_pays_flat_one() {
    assert_eq!(stake_reward(1_000_000, 0, TWO_YEARS, 1_000_000, 1_000_000), Ok(1));
    assert_eq!(stake_reward(0, 0, TWO_YEARS, 0, 1_000_000), Ok(1));
    assert_eq!(stake_reward(1, 0, TWO_YEARS - 1, 1_000_000, 1_000_000), Ok(63_071_999));
    let (mut ledger, mut pos) = staked_ledger();
    let transfers = ledger.try_claim_rewards(&mut pos, false, TWO_YEARS + 100).unwrap();
    assert_eq!(transfers, vec![t(TransferKind::Mint, 1)]);
}

#[test]
fn staking_reward_grows_with_time_and_stake() {
    let a = stake_reward(100, 0, 10, 1_000, 1_000).unwrap();
    let b = stake_reward(100, 0, 20, 1_000, 1_000).unwrap();
    let c = stake_reward(300, 0, 20, 1_000, 1_000).unwrap();
    assert_eq!((a, b, c), (1_000, 2_000, 6_000));
    assert_eq!(stake_reward(0, 0, 20, 0, 1_000), Ok(0));
    assert_eq!(stake_reward(1, 0, 20, 0, 1_000), Err(CoreError::ArithmeticFault));
    assert_eq!(stake_reward(1, 30, 20, 1, 1), Err(CoreError::ArithmeticFault));
}

#[test]
fn unstake_waits_for_cooldown() {
    let (mut ledger, mut pos) = staked_ledger();
    assert_eq!(ledger.try_request_unstake(&mut pos, 400_000, 100), Ok(()));
    assert_eq!(pos.staked_amount, 600_000);
    assert_eq!(ledger.total_staked, 600_000);
    assert_eq!(ledger.try_complete_unstake(&mut pos, 130), Err(CoreError::NothingMatured));
    assert_eq!(pos.pending.len(), 1);
    assert_eq!(ledger.try_request_unstake(&mut pos, 100_000, 150), Ok(()));
    let transfers = ledger.try_complete_unstake(&mut pos, 161).unwrap();
    assert_eq!(transfers, vec![t(TransferKind::Send, 400_000)]);
    assert_eq!(pos.pending.len(), 1);
    let transfers = ledger.try_complete_unstake(&mut pos, 210).unwrap();
    assert_eq!(transfers, vec![t(TransferKind::Send, 100_000)]);
    assert!(pos.pending.is_empty());
    assert_eq!(ledger.try_complete_unstake(&mut pos, 1_000), Err(CoreError::NothingMatured));
}

#[test]
fn unstake_rejections() {
    let (mut ledger, mut pos) = staked_ledger();
    assert_eq!(ledger.try_request_unstake(&mut pos, 0, 1), Err(CoreError::InvalidInput));
    assert_eq!(ledger.try_request_unstake(&mut pos, 1_000_001, 1), Err(CoreError::InsufficientBalance));
    assert_eq!(pos.staked_amount, 1_000_000);
    assert!(pos.pending.is_empty());
}

#[test]
fn stake_info_reports_pending_reward() {
    let (ledger, pos) = staked_ledger();
    assert_eq!(ledger.query_stake_info(None, 86_400), Ok(None));
    assert_eq!(ledger.query_stake_info(Some(&pos), 86_400), Ok(Some(86_400_000_000)));
    assert_eq!(ledger.query_stake_info(Some(&pos), TWO_YEARS), Ok(Some(1)));
}
