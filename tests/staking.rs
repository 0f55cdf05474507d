use reward_ledger::merkle_rewards::{compute_root, initialize as commit_root, MerkleTree};
use reward_ledger::staking::{
    fee_splits, initialize, score_delta, stake, CustomError, PoolName, StakeRegistry, StakingAccount, StakingPools,
    UserAccount,
};

fn key(seed: u8) -> [u8; 32] {
    [seed; 32]
}

fn tree_for(user: &[u8; 32], amount: u64, proof: &Vec<[u8; 32]>) -> MerkleTree {
    commit_root(compute_root(user, amount, proof))
}

#[test]
fn stake_three_months_scores_one_point_four() {
    let mut reg = StakeRegistry::initialize(key(1), key(2));
    assert_eq!(reg.stake(&key(9), 100, 3, true), Ok(()));
    let u = reg.user_account(&key(9)).unwrap();
    assert_eq!(u.staking_score, 140);
    assert_eq!(u.amount_staked, 100);
    assert_eq!(u.lock_period, 3);
}

#[test]
fn stake_six_months_scores_double() {
    let mut reg = StakeRegistry::initialize(key(1), key(2));
    assert_eq!(reg.stake(&key(9), 100, 6, true), Ok(()));
    assert_eq!(reg.user_account(&key(9)).unwrap().staking_score, 200);
    assert_eq!(reg.check_stake(100, 1), Ok(100));
    assert_eq!(reg.check_stake(7, 3), Ok(9));
}

#[test]
fn invalid_lock_period_changes_nothing() {
    let mut reg = StakeRegistry::initialize(key(1), key(2));
    assert_eq!(reg.stake(&key(9), 100, 2, true), Err(CustomError::InvalidLockPeriod));
    assert_eq!(reg.user_account(&key(9)), None);
    assert_eq!(reg.staking_account().total_staked, 0);
    assert_eq!(reg.staking_account().total_staking_score, 0);
}

#[test]
fn failed_transfer_changes_nothing() {
    let mut reg = StakeRegistry::initialize(key(1), key(2));
    assert_eq!(reg.stake(&key(9), 100, 1, false), Err(CustomError::TransferFailed));
    assert_eq!(reg.user_account(&key(9)), None);
    assert_eq!(reg.staking_account().total_staked, 0);
}

#[test]
fn repeat_stakes_accumulate() {
    let mut reg = StakeRegistry::initialize(key(1), key(2));
    assert_eq!(reg.stake(&key(9), 100, 3, true), Ok(()));
    assert_eq!(reg.stake(&key(9), 50, 6, true), Ok(()));
    assert_eq!(reg.stake(&key(8), 10, 1, true), Ok(()));
    let u = reg.user_account(&key(9)).unwrap();
    assert_eq!((u.amount_staked, u.staking_score, u.lock_period), (150, 240, 6));
    let t = reg.staking_account();
    assert_eq!((t.total_staked, t.total_staking_score), (160, 250));
    assert_eq!(t.admin, key(2));
}

#[test]
fn stake_overflow_is_refused() {
    let mut reg = StakeRegistry::initialize(key(1), key(2));
    assert_eq!(reg.stake(&key(9), u64::MAX, 1, true), Ok(()));
    assert_eq!(reg.stake(&key(8), 1, 1, true), Err(CustomError::Overflow));
    assert_eq!(reg.check_stake(u64::MAX, 6), Err(CustomError::Overflow));
    assert_eq!(reg.user_account(&key(8)), None);
}

#[test]
fn rewards_are_pro_rata() {
    let mut reg = StakeRegistry::initialize(key(1), key(2));
    assert_eq!(reg.compute_reward(&key(9), 1000), Err(CustomError::NoStakingScore));
    assert_eq!(reg.stake(&key(9), 100, 3, true), Ok(()));
    assert_eq!(reg.stake(&key(8), 60, 1, true), Ok(()));
    assert_eq!(reg.compute_reward(&key(9), 1000), Ok(700));
    assert_eq!(reg.compute_reward(&key(8), 1000), Ok(300));
    assert_eq!(reg.compute_reward(&key(7), 1000), Ok(0));
    assert_eq!(reg.compute_reward(&key(9), u64::MAX), Ok(((u64::MAX as u128) * 140 / 200) as u64));
}

#[test]
fn pool_names_round_trip() {
    for p in [
        PoolName::BurnPool,
        PoolName::TeamPool,
        PoolName::StakingRewardsPool,
        PoolName::LastPushPool,
        PoolName::PremiumPackPool,
    ] {
        assert_eq!(PoolName::from_name(&p.name()), Some(p));
    }
    assert_eq!(PoolName::from_name(&"burn_pool".to_string()), Some(PoolName::BurnPool));
    assert_eq!(PoolName::from_name(&"treasury".to_string()), None);
    assert_eq!(PoolName::PremiumPackPool.index(), 4);
}

#[test]
fn allocate_pools_splits_fees() {
    let mut pools = StakingPools::initialize();
    assert_eq!(pools.allocate_pools(1000), Ok(()));
    assert_eq!(pools.balance(PoolName::BurnPool), 300);
    assert_eq!(pools.balance(PoolName::TeamPool), 300);
    assert_eq!(pools.balance(PoolName::StakingRewardsPool), 100);
    assert_eq!(pools.balance(PoolName::LastPushPool), 100);
    assert_eq!(pools.balance(PoolName::PremiumPackPool), 200);
    let p = pools.pool(PoolName::TeamPool);
    assert_eq!((p.name.as_str(), p.amount), ("team_pool", 300));
    assert_eq!(fee_splits().len(), 5);
}

#[test]
fn claim_checks_in_order() {
    let mut pools = StakingPools::initialize();
    assert_eq!(pools.allocate_pools(1000), Ok(()));
    let user = key(5);
    let proof = vec![key(6), key(7)];
    let tree = tree_for(&user, 60, &proof);
    let burn = "burn_pool".to_string();
    assert_eq!(pools.claim_rewards(&tree, 61, &burn, &user, &proof).err(), Some(CustomError::CPIToMerkleFailed));
    let zero_tree = tree_for(&user, 0, &proof);
    assert_eq!(pools.claim_rewards(&zero_tree, 0, &burn, &user, &proof).err(), Some(CustomError::InvalidAmount));
    assert_eq!(
        pools.claim_rewards(&tree, 60, &"nope".to_string(), &user, &proof).err(),
        Some(CustomError::InvalidPoolName)
    );
    let big = tree_for(&user, 301, &proof);
    assert_eq!(pools.claim_rewards(&big, 301, &burn, &user, &proof).err(), Some(CustomError::InsufficientFunds));
    assert_eq!(pools.balance(PoolName::BurnPool), 300);
    let c = pools.claim_rewards(&tree, 60, &burn, &user, &proof).unwrap();
    assert_eq!(pools.balance(PoolName::BurnPool), 240);
    assert_eq!(pools.settle_claim(c, true), Ok(()));
    assert_eq!(pools.balance(PoolName::BurnPool), 240);
}

#[test]
fn failed_transfer_rolls_claim_back() {
    let mut pools = StakingPools::initialize();
    assert_eq!(pools.allocate_pools(1000), Ok(()));
    let user = key(5);
    let proof = vec![key(6)];
    let tree = tree_for(&user, 100, &proof);
    let team = "team_pool".to_string();
    let c = pools.claim_rewards(&tree, 100, &team, &user, &proof).unwrap();
    assert_eq!(pools.balance(PoolName::TeamPool), 200);
    assert_eq!(pools.settle_claim(c, false), Err(CustomError::TransferFailed));
    assert_eq!(pools.balance(PoolName::TeamPool), 300);
}

#[test]
fn two_claims_cannot_overdraw_pool() {
    let mut pools = StakingPools::initialize();
    // 1000 gives the staking rewards pool 100.
    assert_eq!(pools.allocate_pools(1000), Ok(()));
    let name = "staking_rewards_pool".to_string();
    let a = key(5);
    let b = key(6);
    let proof = vec![key(7)];
    let ta = tree_for(&a, 60, &proof);
    let tb = tree_for(&b, 60, &proof);
    let first = pools.claim_rewards(&ta, 60, &name, &a, &proof);
    let second = pools.claim_rewards(&tb, 60, &name, &b, &proof);
    assert!(first.is_ok());
    assert_eq!(second.err(), Some(CustomError::InsufficientFunds));
    assert_eq!(pools.settle_claim(first.unwrap(), true), Ok(()));
    assert_eq!(pools.balance(PoolName::StakingRewardsPool), 40);
}

#[test]
fn score_delta_per_lock_period() {
    assert_eq!(score_delta(100, 1), Ok(100));
    assert_eq!(score_delta(100, 3), Ok(140));
    assert_eq!(score_delta(100, 6), Ok(200));
    assert_eq!(score_delta(100, 2), Err(CustomError::InvalidLockPeriod));
    assert_eq!(score_delta(u64::MAX, 3), Err(CustomError::Overflow));
    assert_eq!(score_delta(u64::MAX, 1), Ok(u64::MAX));
}

#[test]
fn stake_on_single_accounts() {
    let mut totals = StakingAccount { trading_fee_pool: key(1), admin: key(2), total_staked: 10, total_staking_score: 10 };
    let mut user = UserAccount { amount_staked: 0, lock_period: 0, staking_score: 0 };
    assert_eq!(stake(&mut totals, &mut user, 100, 3, true), Ok(()));
    assert_eq!(user, UserAccount { amount_staked: 100, lock_period: 3, staking_score: 140 });
    assert_eq!((totals.total_staked, totals.total_staking_score), (110, 150));
    assert_eq!(stake(&mut totals, &mut user, 100, 6, true), Ok(()));
    assert_eq!(user, UserAccount { amount_staked: 200, lock_period: 6, staking_score: 340 });
    assert_eq!(stake(&mut totals, &mut user, 5, 4, true), Err(CustomError::InvalidLockPeriod));
    assert_eq!(stake(&mut totals, &mut user, 5, 1, false), Err(CustomError::TransferFailed));
    assert_eq!(user, UserAccount { amount_staked: 200, lock_period: 6, staking_score: 340 });
    assert_eq!((totals.total_staked, totals.total_staking_score), (210, 350));
}

#[test]
fn stake_on_single_accounts_overflow() {
    let mut totals = StakingAccount { trading_fee_pool: key(1), admin: key(2), total_staked: 0, total_staking_score: 0 };
    let mut user = UserAccount { amount_staked: u64::MAX, lock_period: 1, staking_score: 0 };
    assert_eq!(stake(&mut totals, &mut user, 1, 1, true), Err(CustomError::Overflow));
    assert_eq!(totals.total_staked, 0);
    assert_eq!(user.amount_staked, u64::MAX);
}

#[test]
fn initialize_sets_up_registry_and_pools() {
    let (reg, pools) = initialize(key(3), key(4));
    assert_eq!(reg.staking_account().trading_fee_pool, key(3));
    assert_eq!(reg.staking_account().admin, key(4));
    assert_eq!(reg.staking_account().total_staked, 0);
    assert_eq!(pools.balance(PoolName::LastPushPool), 0);
}

#[test]
fn pools_from_balances() {
    let mut pools = StakingPools::from_balances(1, 2, 3, 4, u64::MAX);
    assert_eq!(pools.balance(PoolName::TeamPool), 2);
    assert_eq!(pools.balance(PoolName::PremiumPackPool), u64::MAX);
    assert_eq!(pools.allocate_pools(10), Err(CustomError::Overflow));
    assert_eq!(pools.balance(PoolName::BurnPool), 1);
    assert_eq!(pools.allocate_pools(4), Ok(()));
    assert_eq!(pools.balance(PoolName::BurnPool), 2);
    assert_eq!(pools.balance(PoolName::PremiumPackPool), u64::MAX);
}
