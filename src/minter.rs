//! The monthly emission schedule and the two reward pools it refills: a
//! loot raffle pool that decays with the emission and a global tapping pool
//! that is reset to a fixed amount each month.
//!
//! The decay itself multiplies by a floating-point factor and is computed by
//! the caller; this module takes its results as plain integers.
use vstd::prelude::*;
use crate::merkle_rewards::{claim as check_claim, proof_valid, MerkleTree};

verus! {

/// Emission of the first month.
pub const INITIAL_EMISSIONS: u64 = 3_000_000_000;

/// Loot raffle pool of the first month.
pub const LOOT_RAFFLE_BASE: u64 = 50_000_000;

/// Amount the global tapping pool is reset to each month.
pub const GLOBAL_TAPPING_BASE: u64 = 1_000_000_000;

/// Base units per whole token in minted amounts.
pub const MINT_SCALE: u64 = 100_000;

#[derive(Debug, Clone, Copy, PartialEq, Eq, Structural)]
pub enum CustomError {
    /// A claim of zero.
    InvalidAmount,
    /// An amount would leave the range of `u64`.
    Overflow,
    /// The pool holds less than the claim.
    InsufficientFunds,
    /// The proof check against the reward tree failed.
    CPIToMerkleFailed,
    /// The token transfer was refused.
    TransferFailed,
    /// The schedule has already been set up.
    AlreadyInitialized,
    /// The schedule has not been set up yet.
    NotInitialized,
}

/// The two pools funded by emissions.
#[derive(Debug, Clone, Copy, PartialEq, Eq, Structural)]
pub enum PoolType {
    LootRaffle,
    GlobalTapping,
}

/// Emission state and the balances of the two emission pools.
#[derive(Debug, Clone, Copy)]
pub struct EmissionsAccount {
    pub initial_emissions: u64,
    pub current_month: u64,
    pub current_emissions: u64,
    pub mint_scale: u64,
    pub loot_raffle_pool: [u8; 32],
    pub loot_raffle_amount: u64,
    pub loot_raffle_total: u64,
    pub global_tapping_pool: [u8; 32],
    pub global_tapping_base: u64,
    pub global_tapping_amount: u64,
    pub global_tapping_total: u64,
}

/// Balance of pool `p`.
pub open spec fn pool_balance(a: EmissionsAccount, p: PoolType) -> u64 {
    match p {
        PoolType::LootRaffle => a.loot_raffle_amount,
        PoolType::GlobalTapping => a.global_tapping_amount,
    }
}

/// The account with the balance of pool `p` set to `v`.
pub open spec fn with_pool_balance(a: EmissionsAccount, p: PoolType, v: u64) -> EmissionsAccount {
    match p {
        PoolType::LootRaffle => EmissionsAccount { loot_raffle_amount: v, ..a },
        PoolType::GlobalTapping => EmissionsAccount { global_tapping_amount: v, ..a },
    }
}

/// The account after one month's emission, given the decayed emission and
/// loot raffle amount; before the first month nothing decays.
pub open spec fn advanced(a: EmissionsAccount, decayed_emissions: u64, decayed_raffle: u64) -> EmissionsAccount {
    let emissions = if a.current_month > 0 { decayed_emissions } else { a.current_emissions };
    let raffle = if a.current_month > 0 { decayed_raffle } else { a.loot_raffle_amount };
    EmissionsAccount {
        current_month: (a.current_month + 1) as u64,
        current_emissions: emissions,
        loot_raffle_amount: raffle,
        loot_raffle_total: raffle,
        global_tapping_amount: a.global_tapping_base,
        global_tapping_total: a.global_tapping_base,
        ..a
    }
}

/// Sets up a schedule that starts at `initial_emissions`, with the given
/// pool bases, mint scale and pool addresses.
pub fn initialize_with(
    initial_emissions: u64,
    loot_raffle_base: u64,
    global_tapping_base: u64,
    mint_scale: u64,
    loot_raffle_pool: [u8; 32],
    global_tapping_pool: [u8; 32],
) -> (r: EmissionsAccount)
    ensures
        r == (EmissionsAccount {
            initial_emissions,
            current_month: 0,
            current_emissions: initial_emissions,
            mint_scale,
            loot_raffle_pool,
            loot_raffle_amount: loot_raffle_base,
            loot_raffle_total: loot_raffle_base,
            global_tapping_pool,
            global_tapping_base,
            global_tapping_amount: global_tapping_base,
            global_tapping_total: global_tapping_base,
        }),
{
    EmissionsAccount {
        initial_emissions,
        current_month: 0,
        current_emissions: initial_emissions,
        mint_scale,
        loot_raffle_pool,
        loot_raffle_amount: loot_raffle_base,
        loot_raffle_total: loot_raffle_base,
        global_tapping_pool,
        global_tapping_base,
        global_tapping_amount: global_tapping_base,
        global_tapping_total: global_tapping_base,
    }
}

/// Sets up the schedule with the standard amounts: 3 billion tokens in the
/// first month, a loot raffle pool of 50 million and a global tapping pool
/// of 1 billion.
pub fn initialize(loot_raffle_pool: [u8; 32], global_tapping_pool: [u8; 32]) -> (r: EmissionsAccount)
    ensures
        r == standard_emissions_account(loot_raffle_pool, global_tapping_pool),
{
    initialize_with(
        INITIAL_EMISSIONS,
        LOOT_RAFFLE_BASE,
        GLOBAL_TAPPING_BASE,
        MINT_SCALE,
        loot_raffle_pool,
        global_tapping_pool,
    )
}

/// The account that `initialize` sets up.
pub open spec fn standard_emissions_account(loot_raffle_pool: [u8; 32], global_tapping_pool: [u8; 32]) -> EmissionsAccount {
    EmissionsAccount {
        initial_emissions: INITIAL_EMISSIONS,
        current_month: 0,
        current_emissions: INITIAL_EMISSIONS,
        mint_scale: MINT_SCALE,
        loot_raffle_pool,
        loot_raffle_amount: LOOT_RAFFLE_BASE,
        loot_raffle_total: LOOT_RAFFLE_BASE,
        global_tapping_pool,
        global_tapping_base: GLOBAL_TAPPING_BASE,
        global_tapping_amount: GLOBAL_TAPPING_BASE,
        global_tapping_total: GLOBAL_TAPPING_BASE,
    }
}

/// A claim whose amount has left its pool while the transfer to the
/// claimant is outstanding.
pub struct PendingPoolClaim {
    pool: PoolType,
    amount: u64,
}

impl PendingPoolClaim {
    pub closed spec fn pool(&self) -> PoolType {
        self.pool
    }

    pub closed spec fn amount(&self) -> u64 {
        self.amount
    }
}

impl EmissionsAccount {
    /// Balance of pool `p`.
    pub fn pool_amount(&self, p: PoolType) -> (r: u64)
        ensures
            r == pool_balance(*self, p),
    {
        match p {
            PoolType::LootRaffle => self.loot_raffle_amount,
            PoolType::GlobalTapping => self.global_tapping_amount,
        }
    }

    fn set_pool_amount(&mut self, p: PoolType, v: u64)
        ensures
            *final(self) == with_pool_balance(*old(self), p, v),
    {
        match p {
            PoolType::LootRaffle => {
                self.loot_raffle_amount = v;
            },
            PoolType::GlobalTapping => {
                self.global_tapping_amount = v;
            },
        }
    }

    /// Runs one month of the schedule and returns the amount to mint, the
    /// month's emission times the mint scale. From the second month on the
    /// emission and the loot raffle pool become `decayed_emissions` and
    /// `decayed_raffle`, the previous values times the decay factor rounded
    /// toward zero; in the first month both are ignored. The global tapping
    /// pool is reset to its base and the month counter advances. Fails with
    /// `Overflow`, changing nothing, where the mint amount or the month
    /// counter would leave `u64`.
    pub fn calculate_and_mint(&mut self, decayed_emissions: u64, decayed_raffle: u64) -> (r: Result<u64, CustomError>)
        ensures
            ({
                let next = advanced(*old(self), decayed_emissions, decayed_raffle);
                if old(self).current_month < u64::MAX && next.current_emissions * old(self).mint_scale <= u64::MAX {
                    r == Ok::<u64, CustomError>((next.current_emissions * old(self).mint_scale) as u64)
                        && *final(self) == next
                } else {
                    r == Err::<u64, CustomError>(CustomError::Overflow) && *final(self) == *old(self)
                }
            }),
    {
        if self.current_month == u64::MAX {
            return Err(CustomError::Overflow);
        }
        let emissions = if self.current_month > 0 { decayed_emissions } else { self.current_emissions };
        let mint_amount = match emissions.checked_mul(self.mint_scale) {
            Some(m) => m,
            None => {
                return Err(CustomError::Overflow);
            },
        };
        if self.current_month > 0 {
            self.current_emissions = decayed_emissions;
            self.loot_raffle_amount = decayed_raffle;
        }
        self.global_tapping_amount = self.global_tapping_base;
        self.global_tapping_total = self.global_tapping_base;
        self.loot_raffle_total = self.loot_raffle_amount;
        self.current_month = self.current_month + 1;
        Ok(mint_amount)
    }

    /// Starts a claim of `amount` from pool `pool_type` by `user_address`:
    /// checks the proof against `tree`, then the amount, then the balance,
    /// and debits the pool. The transfer to the claimant is then owed, and
    /// `settle_claim` finishes the claim. On any error nothing changes.
    pub fn claim_rewards(
        &mut self,
        tree: &MerkleTree,
        amount: u64,
        pool_type: PoolType,
        user_address: &[u8; 32],
        proof: &Vec<[u8; 32]>,
    ) -> (r: Result<PendingPoolClaim, CustomError>)
        ensures
            !proof_valid(user_address@, amount, proof@, tree.merkle_root@)
                ==> r == Err::<PendingPoolClaim, CustomError>(CustomError::CPIToMerkleFailed),
            proof_valid(user_address@, amount, proof@, tree.merkle_root@) && amount == 0
                ==> r == Err::<PendingPoolClaim, CustomError>(CustomError::InvalidAmount),
            proof_valid(user_address@, amount, proof@, tree.merkle_root@) && amount > 0
                ==> if amount > pool_balance(*old(self), pool_type) {
                    r == Err::<PendingPoolClaim, CustomError>(CustomError::InsufficientFunds)
                } else {
                    (r matches Ok(c) && c.pool() == pool_type && c.amount() == amount)
                        && *final(self) == with_pool_balance(
                        *old(self),
                        pool_type,
                        (pool_balance(*old(self), pool_type) - amount) as u64,
                    )
                },
            r is Err ==> *final(self) == *old(self),
    {
        if check_claim(tree, user_address, amount, proof).is_err() {
            return Err(CustomError::CPIToMerkleFailed);
        }
        if amount == 0 {
            return Err(CustomError::InvalidAmount);
        }
        let balance = self.pool_amount(pool_type);
        if amount > balance {
            return Err(CustomError::InsufficientFunds);
        }
        let left = match balance.checked_sub(amount) {
            Some(v) => v,
            None => {
                return Err(CustomError::Overflow);
            },
        };
        self.set_pool_amount(pool_type, left);
        Ok(PendingPoolClaim { pool: pool_type, amount })
    }

    /// Finishes a claim once the transfer to the claimant is known to have
    /// succeeded or failed. A failed transfer credits the amount back to its
    /// pool and gives `TransferFailed`; should the pool have grown so far
    /// meanwhile that the credit would overflow, `Overflow` instead, with
    /// nothing changed.
    pub fn settle_claim(&mut self, claim: PendingPoolClaim, transfer_succeeded: bool) -> (r: Result<(), CustomError>)
        ensures
            transfer_succeeded ==> r is Ok && *final(self) == *old(self),
            !transfer_succeeded && pool_balance(*old(self), claim.pool()) + claim.amount() <= u64::MAX
                ==> r == Err::<(), CustomError>(CustomError::TransferFailed) && *final(self) == with_pool_balance(
                *old(self),
                claim.pool(),
                (pool_balance(*old(self), claim.pool()) + claim.amount()) as u64,
            ),
            !transfer_succeeded && pool_balance(*old(self), claim.pool()) + claim.amount() > u64::MAX
                ==> r == Err::<(), CustomError>(CustomError::Overflow) && *final(self) == *old(self),
    {
        if transfer_succeeded {
            return Ok(());
        }
        let balance = self.pool_amount(claim.pool);
        match balance.checked_add(claim.amount) {
            Some(v) => {
                self.set_pool_amount(claim.pool, v);
                Err(CustomError::TransferFailed)
            },
            None => Err(CustomError::Overflow),
        }
    }
}

/// The emission schedule, set up at most once.
pub struct Minter {
    account: Option<EmissionsAccount>,
}

impl View for Minter {
    type V = Option<EmissionsAccount>;

    closed spec fn view(&self) -> Option<EmissionsAccount> {
        self.account
    }
}

impl Minter {
    /// A schedule not yet set up.
    pub fn new() -> (r: Minter)
        ensures
            r@ is None,
    {
        Minter { account: None }
    }

    /// Sets up the schedule; a second set-up fails with `AlreadyInitialized`.
    pub fn initialize(&mut self, account: EmissionsAccount) -> (r: Result<(), CustomError>)
        ensures
            old(self)@ is None ==> r is Ok && final(self)@ == Some(account),
            old(self)@ is Some ==> r == Err::<(), CustomError>(CustomError::AlreadyInitialized) && final(self)@ == old(self)@,
    {
        if self.account.is_some() {
            return Err(CustomError::AlreadyInitialized);
        }
        self.account = Some(account);
        Ok(())
    }

    /// The schedule's state, once set up.
    pub fn account(&self) -> (r: Option<EmissionsAccount>)
        ensures
            r == self@,
    {
        self.account
    }

    /// Runs one month of the schedule as `EmissionsAccount::calculate_and_mint`
    /// does; fails with `NotInitialized` before set-up.
    pub fn advance_emission(&mut self, decayed_emissions: u64, decayed_raffle: u64) -> (r: Result<u64, CustomError>)
        ensures
            match old(self)@ {
                None => r == Err::<u64, CustomError>(CustomError::NotInitialized) && final(self)@ == old(self)@,
                Some(a) => {
                    let next = advanced(a, decayed_emissions, decayed_raffle);
                    if a.current_month < u64::MAX && next.current_emissions * a.mint_scale <= u64::MAX {
                        r == Ok::<u64, CustomError>((next.current_emissions * a.mint_scale) as u64)
                            && final(self)@ == Some(next)
                    } else {
                        r == Err::<u64, CustomError>(CustomError::Overflow) && final(self)@ == old(self)@
                    }
                },
            },
    {
        match &mut self.account {
            None => Err(CustomError::NotInitialized),
            Some(a) => a.calculate_and_mint(decayed_emissions, decayed_raffle),
        }
    }
}

/// The first month is not decayed: its emission is the initial one,
/// whatever decayed values are supplied.
pub proof fn lemma_first_month_undecayed(a: EmissionsAccount, decayed_emissions: u64, decayed_raffle: u64)
    requires
        a.current_month == 0,
        a.current_emissions == a.initial_emissions,
    ensures
        advanced(a, decayed_emissions, decayed_raffle).current_emissions == a.initial_emissions,
        advanced(a, decayed_emissions, decayed_raffle).current_month == 1,
{
}

/// A failed transfer leaves the pools as they were: crediting back the
/// amount of a successful debit restores the account.
pub proof fn lemma_claim_rollback_restores(a: EmissionsAccount, p: PoolType, amount: u64)
    requires
        amount <= pool_balance(a, p),
    ensures
        ({
            let debited = with_pool_balance(a, p, (pool_balance(a, p) - amount) as u64);
            with_pool_balance(debited, p, (pool_balance(debited, p) + amount) as u64) == a
        }),
{
}

} // verus!
