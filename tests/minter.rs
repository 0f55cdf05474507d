use reward_ledger::merkle_rewards::{compute_root, initialize as commit_root};
use reward_ledger::minter::{
    initialize, initialize_with, CustomError, Minter, PoolType, GLOBAL_TAPPING_BASE, INITIAL_EMISSIONS,
    LOOT_RAFFLE_BASE, MINT_SCALE,
};

const DECAY: f64 = 0.8705505633;

fn decay(x: u64) -> u64 {
    (x as f64 * DECAY) as u64
}

fn run_months(n: usize) -> Vec<(u64, u64)> {
    let mut m = Minter::new();
    assert_eq!(m.initialize(initialize([1; 32], [2; 32])), Ok(()));
    let mut out = Vec::new();
    for _ in 0..n {
        let a = m.account().unwrap();
        let mint = m.advance_emission(decay(a.current_emissions), decay(a.loot_raffle_amount)).unwrap();
        out.push((m.account().unwrap().current_emissions, mint));
    }
    out
}

#[test]
fn emission_schedule_first_two_months() {
    let months = run_months(2);
    assert_eq!(months[0], (3_000_000_000, 3_000_000_000 * 100_000));
    let second = months[1].0;
    assert!(second >= 2_611_651_689 && second <= 2_611_651_691);
    assert_eq!(second, decay(3_000_000_000));
    assert_eq!(months[1].1, second * MINT_SCALE);
}

#[test]
fn emission_schedule_is_reproducible() {
    let a = run_months(24);
    let b = run_months(24);
    assert_eq!(a, b);
    for w in a.windows(2) {
        assert!(w[1].0 < w[0].0);
    }
}

#[test]
fn first_month_ignores_decay_inputs() {
    let mut acc = initialize([1; 32], [2; 32]);
    assert_eq!(acc.calculate_and_mint(5, 6), Ok(INITIAL_EMISSIONS * MINT_SCALE));
    assert_eq!(acc.current_emissions, INITIAL_EMISSIONS);
    assert_eq!(acc.loot_raffle_amount, LOOT_RAFFLE_BASE);
    assert_eq!(acc.loot_raffle_total, LOOT_RAFFLE_BASE);
    assert_eq!(acc.current_month, 1);
    assert_eq!(acc.calculate_and_mint(5, 6), Ok(5 * MINT_SCALE));
    assert_eq!((acc.current_emissions, acc.loot_raffle_amount, acc.loot_raffle_total), (5, 6, 6));
    assert_eq!(acc.current_month, 2);
}

#[test]
fn tapping_pool_resets_each_month() {
    let mut acc = initialize([1; 32], [2; 32]);
    let user = [4u8; 32];
    let proof = vec![[5u8; 32]];
    let tree = commit_root(compute_root(&user, 400, &proof));
    let c = acc.claim_rewards(&tree, 400, PoolType::GlobalTapping, &user, &proof).unwrap();
    assert_eq!(acc.settle_claim(c, true), Ok(()));
    assert_eq!(acc.pool_amount(PoolType::GlobalTapping), GLOBAL_TAPPING_BASE - 400);
    assert!(acc.calculate_and_mint(0, 0).is_ok());
    assert_eq!(acc.global_tapping_amount, GLOBAL_TAPPING_BASE);
    assert_eq!(acc.global_tapping_total, GLOBAL_TAPPING_BASE);
}

#[test]
fn mint_overflow_changes_nothing() {
    let mut acc = initialize_with(u64::MAX, 1, 1, 2, [0; 32], [0; 32]);
    assert_eq!(acc.calculate_and_mint(0, 0), Err(CustomError::Overflow));
    assert_eq!(acc.current_month, 0);
    let mut last = initialize_with(1, 1, 1, 1, [0; 32], [0; 32]);
    last.current_month = u64::MAX;
    assert_eq!(last.calculate_and_mint(1, 1), Err(CustomError::Overflow));
    assert_eq!(last.current_month, u64::MAX);
}

#[test]
fn schedule_lifecycle_errors() {
    let mut m = Minter::new();
    assert_eq!(m.advance_emission(1, 1), Err(CustomError::NotInitialized));
    assert_eq!(m.initialize(initialize([1; 32], [2; 32])), Ok(()));
    assert_eq!(m.initialize(initialize([3; 32], [4; 32])), Err(CustomError::AlreadyInitialized));
    assert_eq!(m.account().unwrap().loot_raffle_pool, [1; 32]);
}

#[test]
fn raffle_claim_errors_and_rollback() {
    let mut acc = initialize([1; 32], [2; 32]);
    let user = [4u8; 32];
    let proof = vec![[5u8; 32], [6u8; 32]];
    let tree = commit_root(compute_root(&user, 100, &proof));
    assert_eq!(
        acc.claim_rewards(&tree, 101, PoolType::LootRaffle, &user, &proof).err(),
        Some(CustomError::CPIToMerkleFailed)
    );
    let zero = commit_root(compute_root(&user, 0, &proof));
    assert_eq!(acc.claim_rewards(&zero, 0, PoolType::LootRaffle, &user, &proof).err(), Some(CustomError::InvalidAmount));
    let huge = LOOT_RAFFLE_BASE + 1;
    let big = commit_root(compute_root(&user, huge, &proof));
    assert_eq!(
        acc.claim_rewards(&big, huge, PoolType::LootRaffle, &user, &proof).err(),
        Some(CustomError::InsufficientFunds)
    );
    let c = acc.claim_rewards(&tree, 100, PoolType::LootRaffle, &user, &proof).unwrap();
    assert_eq!(acc.loot_raffle_amount, LOOT_RAFFLE_BASE - 100);
    assert_eq!(acc.settle_claim(c, false), Err(CustomError::TransferFailed));
    assert_eq!(acc.loot_raffle_amount, LOOT_RAFFLE_BASE);
}
