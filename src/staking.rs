//! Stake accounting: per-participant records, global totals kept equal to
//! their sums, and pro-rata rewards by staking score.
use vstd::prelude::*;
use crate::ledger::{allocated, allocation_fits, credited, debited, PoolLedger, SplitTable};
use crate::merkle_rewards::{claim as check_claim, hashes_equal, proof_valid, MerkleTree};

verus! {

#[derive(Debug, Clone, Copy, PartialEq, Eq, Structural)]
pub enum CustomError {
    /// The proof check against the reward tree failed.
    CPIToMerkleFailed,
    /// A claim of zero.
    InvalidAmount,
    /// The pool holds less than the claim.
    InsufficientFunds,
    /// A total would leave the range of `u64`.
    Overflow,
    /// The lock period is not one of 1, 3 or 6.
    InvalidLockPeriod,
    /// No pool has the given name.
    InvalidPoolName,
    /// The token transfer was refused.
    TransferFailed,
    /// Rewards were asked for before anything was staked with a score.
    NoStakingScore,
}

/// Global staking state.
#[derive(Debug, Clone, Copy)]
pub struct StakingAccount {
    pub trading_fee_pool: [u8; 32],
    pub admin: [u8; 32],
    pub total_staked: u64,
    pub total_staking_score: u64,
}

/// One participant's stake.
#[derive(Debug, Clone, Copy, PartialEq, Eq, Structural)]
pub struct UserAccount {
    pub amount_staked: u64,
    pub lock_period: u8,
    pub staking_score: u64,
}

/// A participant's stake, keyed by the participant's address.
#[derive(Debug, Clone, Copy)]
pub struct StakeEntry {
    pub participant: [u8; 32],
    pub account: UserAccount,
}

/// The multiplier of a lock period, in tenths.
pub open spec fn multiplier_tenths(lock_period: u8) -> Option<int> {
    if lock_period == 1 {
        Some(10)
    } else if lock_period == 3 {
        Some(14)
    } else if lock_period == 6 {
        Some(20)
    } else {
        None
    }
}

/// The score that staking `amount` for `lock_period` earns: the amount
/// times the period's multiplier, rounded down.
pub open spec fn score_for(amount: u64, lock_period: u8) -> int
    recommends
        multiplier_tenths(lock_period) is Some,
{
    (amount as int * multiplier_tenths(lock_period).unwrap()) / 10
}

/// The record of `p` in `e`, the latest entry for it if several.
pub open spec fn lookup(e: Seq<StakeEntry>, p: Seq<u8>) -> Option<UserAccount>
    decreases e.len(),
{
    if e.len() == 0 {
        None
    } else if e.last().participant@ == p {
        Some(e.last().account)
    } else {
        lookup(e.drop_last(), p)
    }
}

pub open spec fn staked_sum(e: Seq<StakeEntry>) -> int
    decreases e.len(),
{
    if e.len() == 0 {
        0
    } else {
        staked_sum(e.drop_last()) + e.last().account.amount_staked
    }
}

pub open spec fn score_sum(e: Seq<StakeEntry>) -> int
    decreases e.len(),
{
    if e.len() == 0 {
        0
    } else {
        score_sum(e.drop_last()) + e.last().account.staking_score
    }
}

pub open spec fn participants_unique(e: Seq<StakeEntry>) -> bool {
    forall|i: int, j: int|
        0 <= i < e.len() && 0 <= j < e.len() && i != j ==> #[trigger] e[i].participant@ != #[trigger] e[j].participant@
}

/// A record after `amount` more is staked for `lock_period` with score
/// `delta`; a participant without a record starts from zero.
pub open spec fn record_after(prev: Option<UserAccount>, amount: u64, lock_period: u8, delta: int) -> UserAccount {
    match prev {
        Some(a) => UserAccount {
            amount_staked: (a.amount_staked + amount) as u64,
            lock_period,
            staking_score: (a.staking_score + delta) as u64,
        },
        None => UserAccount { amount_staked: amount, lock_period, staking_score: delta as u64 },
    }
}

/// The reward of a participant with score `score` out of `total_score`
/// from a pool of `pool_amount`, rounded down.
pub open spec fn reward_for(score: u64, total_score: u64, pool_amount: u64) -> int
    recommends
        total_score > 0,
{
    (score as int * pool_amount as int) / total_score as int
}

proof fn lemma_lookup_push(e: Seq<StakeEntry>, x: StakeEntry, p: Seq<u8>)
    ensures
        lookup(e.push(x), p) == (if x.participant@ == p { Some(x.account) } else { lookup(e, p) }),
{
    assert(e.push(x).drop_last() =~= e);
}

proof fn lemma_lookup_found(e: Seq<StakeEntry>, i: int)
    requires
        participants_unique(e),
        0 <= i < e.len(),
    ensures
        lookup(e, e[i].participant@) == Some(e[i].account),
    decreases e.len(),
{
    if i < e.len() - 1 {
        assert(e.last() == e[e.len() - 1]);
        assert(e.drop_last()[i] == e[i]);
        lemma_lookup_found(e.drop_last(), i);
    }
}

proof fn lemma_lookup_absent(e: Seq<StakeEntry>, p: Seq<u8>)
    requires
        forall|i: int| 0 <= i < e.len() ==> (#[trigger] e[i]).participant@ != p,
    ensures
        lookup(e, p) is None,
    decreases e.len(),
{
    if e.len() > 0 {
        assert(e.last() == e[e.len() - 1]);
        assert forall|i: int| 0 <= i < e.drop_last().len() implies (#[trigger] e.drop_last()[i]).participant@ != p by {
            assert(e.drop_last()[i] == e[i]);
        }
        lemma_lookup_absent(e.drop_last(), p);
    }
}

proof fn lemma_update(e: Seq<StakeEntry>, i: int, x: StakeEntry, p: Seq<u8>)
    requires
        participants_unique(e),
        0 <= i < e.len(),
        x.participant@ == e[i].participant@,
    ensures
        lookup(e.update(i, x), p) == (if x.participant@ == p { Some(x.account) } else { lookup(e, p) }),
        staked_sum(e.update(i, x)) == staked_sum(e) - e[i].account.amount_staked + x.account.amount_staked,
        score_sum(e.update(i, x)) == score_sum(e) - e[i].account.staking_score + x.account.staking_score,
        participants_unique(e.update(i, x)),
    decreases e.len(),
{
    let u = e.update(i, x);
    assert forall|a: int, b: int|
        0 <= a < u.len() && 0 <= b < u.len() && a != b implies #[trigger] u[a].participant@ != #[trigger] u[b].participant@ by {
        if a != i && b != i {
            assert(u[a] == e[a] && u[b] == e[b]);
        } else if a == i {
            assert(u[b] == e[b]);
            assert(e[a].participant@ != e[b].participant@);
        } else {
            assert(u[a] == e[a]);
            assert(e[a].participant@ != e[b].participant@);
        }
    }
    if i == e.len() - 1 {
        assert(u.drop_last() =~= e.drop_last());
        if x.participant@ != p {
            assert(e.last() == e[i]);
        }
    } else {
        let t = e.drop_last();
        assert(u.drop_last() =~= t.update(i, x));
        assert(t[i] == e[i]);
        assert(participants_unique(t)) by {
            assert forall|a: int, b: int|
                0 <= a < t.len() && 0 <= b < t.len() && a != b implies #[trigger] t[a].participant@ != #[trigger] t[b].participant@ by {
                assert(t[a] == e[a] && t[b] == e[b]);
            }
        }
        lemma_update(t, i, x, p);
        assert(u.last() == e.last());
        assert(e.last() == e[e.len() - 1]);
        if x.participant@ == p {
            assert(e[e.len() - 1].participant@ != e[i].participant@);
        }
    }
}

proof fn lemma_entry_within_sums(e: Seq<StakeEntry>, i: int)
    requires
        0 <= i < e.len(),
    ensures
        e[i].account.amount_staked <= staked_sum(e),
        e[i].account.staking_score <= score_sum(e),
        staked_sum(e) >= 0,
        score_sum(e) >= 0,
    decreases e.len(),
{
    let t = e.drop_last();
    if i < e.len() - 1 {
        assert(t[i] == e[i]);
        lemma_entry_within_sums(t, i);
    } else {
        assert(e.last() == e[i]);
        lemma_lookup_within_sums(t, e[i].participant@);
    }
}

proof fn lemma_lookup_within_sums(e: Seq<StakeEntry>, p: Seq<u8>)
    ensures
        staked_sum(e) >= 0,
        score_sum(e) >= 0,
        lookup(e, p) matches Some(a) ==> a.amount_staked <= staked_sum(e) && a.staking_score <= score_sum(e),
    decreases e.len(),
{
    if e.len() > 0 {
        lemma_lookup_within_sums(e.drop_last(), p);
    }
}

/// Whether a stake of `amount` with score `delta` keeps the totals and the
/// participant's record within `u64`.
pub open spec fn stake_fits(t: StakingAccount, u: UserAccount, amount: u64, delta: int) -> bool {
    &&& t.total_staked + amount <= u64::MAX
    &&& t.total_staking_score + delta <= u64::MAX
    &&& u.amount_staked + amount <= u64::MAX
    &&& u.staking_score + delta <= u64::MAX
}

/// The score a stake of `amount` for `lock_period` earns. Fails with
/// `InvalidLockPeriod` for a period other than 1, 3 or 6, and with
/// `Overflow` where the score leaves `u64`.
pub fn score_delta(amount: u64, lock_period: u8) -> (r: Result<u64, CustomError>)
    ensures
        multiplier_tenths(lock_period) is None ==> r == Err::<u64, CustomError>(CustomError::InvalidLockPeriod),
        multiplier_tenths(lock_period) is Some ==> if score_for(amount, lock_period) <= u64::MAX {
            r == Ok::<u64, CustomError>(score_for(amount, lock_period) as u64)
        } else {
            r == Err::<u64, CustomError>(CustomError::Overflow)
        },
{
    let tenths: u64 = match lock_period {
        1 => 10,
        3 => 14,
        6 => 20,
        _ => {
            return Err(CustomError::InvalidLockPeriod);
        },
    };
    assert((amount as int) * (tenths as int) <= u64::MAX as int * 20) by (nonlinear_arith)
        requires
            amount <= u64::MAX,
            tenths <= 20,
    ;
    let product: u128 = (amount as u128) * (tenths as u128);
    let delta128: u128 = product / 10;
    if delta128 > u64::MAX as u128 {
        return Err(CustomError::Overflow);
    }
    Ok(delta128 as u64)
}

/// Records a stake of `amount` for `lock_period` in one participant's
/// account and in the totals, once the transfer of `amount` into custody
/// is known to have succeeded. Amount and score add to what the account
/// holds. On any error nothing changes: `InvalidLockPeriod`, then
/// `Overflow` where a sum would leave `u64`, then `TransferFailed`.
pub fn stake(
    staking_account: &mut StakingAccount,
    user_account: &mut UserAccount,
    amount: u64,
    lock_period: u8,
    transfer_succeeded: bool,
) -> (r: Result<(), CustomError>)
    ensures
        multiplier_tenths(lock_period) is None ==> r == Err::<(), CustomError>(CustomError::InvalidLockPeriod),
        multiplier_tenths(lock_period) is Some && !stake_fits(*old(staking_account), *old(user_account), amount, score_for(amount, lock_period))
            ==> r == Err::<(), CustomError>(CustomError::Overflow),
        multiplier_tenths(lock_period) is Some && stake_fits(*old(staking_account), *old(user_account), amount, score_for(amount, lock_period))
            ==> (if transfer_succeeded { r is Ok } else { r == Err::<(), CustomError>(CustomError::TransferFailed) }),
        r is Err ==> *final(staking_account) == *old(staking_account) && *final(user_account) == *old(user_account),
        r is Ok ==> *final(staking_account) == (StakingAccount {
            total_staked: (old(staking_account).total_staked + amount) as u64,
            total_staking_score: (old(staking_account).total_staking_score + score_for(amount, lock_period)) as u64,
            ..*old(staking_account)
        }) && *final(user_account) == record_after(Some(*old(user_account)), amount, lock_period, score_for(amount, lock_period)),
{
    let delta = match score_delta(amount, lock_period) {
        Ok(d) => d,
        Err(e) => {
            return Err(e);
        },
    };
    if staking_account.total_staked > u64::MAX - amount || staking_account.total_staking_score > u64::MAX - delta
        || user_account.amount_staked > u64::MAX - amount || user_account.staking_score > u64::MAX - delta {
        return Err(CustomError::Overflow);
    }
    if !transfer_succeeded {
        return Err(CustomError::TransferFailed);
    }
    staking_account.total_staked = staking_account.total_staked + amount;
    staking_account.total_staking_score = staking_account.total_staking_score + delta;
    user_account.amount_staked = user_account.amount_staked + amount;
    user_account.staking_score = user_account.staking_score + delta;
    user_account.lock_period = lock_period;
    Ok(())
}

/// Every participant's stake, with the totals kept equal to their sums.
pub struct StakeRegistry {
    account: StakingAccount,
    entries: Vec<StakeEntry>,
}

impl StakeRegistry {
    pub closed spec fn totals(&self) -> StakingAccount {
        self.account
    }

    pub closed spec fn entries(&self) -> Seq<StakeEntry> {
        self.entries@
    }

    /// The record of the participant with address `p`.
    pub open spec fn record(&self, p: Seq<u8>) -> Option<UserAccount> {
        lookup(self.entries(), p)
    }

    /// Participants are unique and the totals are the sums of the records.
    pub open spec fn wf(&self) -> bool {
        &&& participants_unique(self.entries())
        &&& self.totals().total_staked == staked_sum(self.entries())
        &&& self.totals().total_staking_score == score_sum(self.entries())
    }

    /// An empty registry for the given fee pool and admin.
    pub fn initialize(trading_fee_pool: [u8; 32], admin: [u8; 32]) -> (r: StakeRegistry)
        ensures
            r.wf(),
            r.totals().trading_fee_pool == trading_fee_pool,
            r.totals().admin == admin,
            r.totals().total_staked == 0,
            r.totals().total_staking_score == 0,
            forall|p: Seq<u8>| r.record(p) is None,
    {
        StakeRegistry {
            account: StakingAccount { trading_fee_pool, admin, total_staked: 0, total_staking_score: 0 },
            entries: Vec::new(),
        }
    }

    /// The global totals.
    pub fn staking_account(&self) -> (r: StakingAccount)
        ensures
            r == self.totals(),
    {
        self.account
    }

    fn find(&self, participant: &[u8; 32]) -> (r: Option<usize>)
        ensures
            match r {
                Some(i) => i < self.entries().len() && self.entries()[i as int].participant@ == participant@,
                None => forall|i: int| 0 <= i < self.entries().len() ==> (#[trigger] self.entries()[i]).participant@ != participant@,
            },
    {
        let mut i: usize = 0;
        while i < self.entries.len()
            invariant
                i <= self.entries@.len(),
                forall|j: int| 0 <= j < i ==> (#[trigger] self.entries@[j]).participant@ != participant@,
            decreases self.entries@.len() - i,
        {
            if hashes_equal(&self.entries[i].participant, participant) {
                return Some(i);
            }
            i = i + 1;
        }
        None
    }

    /// The stake of `participant`, if any.
    pub fn user_account(&self, participant: &[u8; 32]) -> (r: Option<UserAccount>)
        requires
            self.wf(),
        ensures
            r == self.record(participant@),
    {
        match self.find(participant) {
            Some(i) => {
                proof {
                    lemma_lookup_found(self.entries@, i as int);
                }
                Some(self.entries[i].account)
            },
            None => {
                proof {
                    lemma_lookup_absent(self.entries@, participant@);
                }
                None
            },
        }
    }

    /// What a stake of `amount` for `lock_period` would add to the score,
    /// checked against the totals. Fails with `InvalidLockPeriod` for a
    /// period other than 1, 3 or 6, and with `Overflow` where a total would
    /// leave `u64`.
    pub fn check_stake(&self, amount: u64, lock_period: u8) -> (r: Result<u64, CustomError>)
        ensures
            multiplier_tenths(lock_period) is None ==> r == Err::<u64, CustomError>(CustomError::InvalidLockPeriod),
            multiplier_tenths(lock_period) is Some ==> (
                if self.totals().total_staked + amount <= u64::MAX
                    && self.totals().total_staking_score + score_for(amount, lock_period) <= u64::MAX {
                    r == Ok::<u64, CustomError>(score_for(amount, lock_period) as u64)
                } else {
                    r == Err::<u64, CustomError>(CustomError::Overflow)
                }),
    {
        let delta = match score_delta(amount, lock_period) {
            Ok(d) => d,
            Err(e) => {
                return Err(e);
            },
        };
        if self.account.total_staked > u64::MAX - amount {
            return Err(CustomError::Overflow);
        }
        if self.account.total_staking_score > u64::MAX - delta {
            return Err(CustomError::Overflow);
        }
        Ok(delta)
    }

    /// Records a stake of `amount` by `participant` for `lock_period`, once
    /// the transfer of `amount` into custody is known to have succeeded.
    /// The amount and score add to the participant's record, which is
    /// created on a first stake, and to the totals. On any error nothing
    /// changes: the errors of `check_stake`, then `TransferFailed` where
    /// the transfer did not succeed.
    pub fn stake(&mut self, participant: &[u8; 32], amount: u64, lock_period: u8, transfer_succeeded: bool) -> (r: Result<(), CustomError>)
        requires
            old(self).wf(),
        ensures
            final(self).wf(),
            multiplier_tenths(lock_period) is None ==> r == Err::<(), CustomError>(CustomError::InvalidLockPeriod),
            multiplier_tenths(lock_period) is Some && !(old(self).totals().total_staked + amount <= u64::MAX
                && old(self).totals().total_staking_score + score_for(amount, lock_period) <= u64::MAX)
                ==> r == Err::<(), CustomError>(CustomError::Overflow),
            multiplier_tenths(lock_period) is Some && old(self).totals().total_staked + amount <= u64::MAX
                && old(self).totals().total_staking_score + score_for(amount, lock_period) <= u64::MAX
                ==> (if transfer_succeeded { r is Ok } else { r == Err::<(), CustomError>(CustomError::TransferFailed) }),
            r is Err ==> final(self).totals() == old(self).totals() && final(self).entries() == old(self).entries(),
            r is Ok ==> {
                &&& final(self).totals().total_staked == old(self).totals().total_staked + amount
                &&& final(self).totals().total_staking_score == old(self).totals().total_staking_score + score_for(amount, lock_period)
                &&& final(self).totals().trading_fee_pool == old(self).totals().trading_fee_pool
                &&& final(self).totals().admin == old(self).totals().admin
                &&& final(self).record(participant@) == Some(record_after(old(self).record(participant@), amount, lock_period, score_for(amount, lock_period)))
                &&& forall|q: Seq<u8>| q != participant@ ==> #[trigger] final(self).record(q) == old(self).record(q)
            },
    {
        let delta = match self.check_stake(amount, lock_period) {
            Ok(d) => d,
            Err(e) => {
                return Err(e);
            },
        };
        if !transfer_succeeded {
            return Err(CustomError::TransferFailed);
        }
        let ghost e0 = self.entries@;
        let ghost t0 = self.account;
        match self.find(participant) {
            Some(i) => {
                let mut acc = self.entries[i].account;
                proof {
                    lemma_entry_within_sums(e0, i as int);
                    lemma_lookup_found(e0, i as int);
                }
                let r = stake(&mut self.account, &mut acc, amount, lock_period, transfer_succeeded);
                assert(r is Ok);
                let entry = StakeEntry { participant: *participant, account: acc };
                self.entries.set(i, entry);
                proof {
                    assert forall|q: Seq<u8>| true implies lookup(e0.update(i as int, entry), q) == (if entry.participant@ == q {
                        Some(entry.account)
                    } else {
                        lookup(e0, q)
                    }) by {
                        lemma_update(e0, i as int, entry, q);
                    }
                    lemma_update(e0, i as int, entry, participant@);
                }
            },
            None => {
                let mut acc = UserAccount { amount_staked: 0, lock_period: 0, staking_score: 0 };
                let r = stake(&mut self.account, &mut acc, amount, lock_period, transfer_succeeded);
                assert(r is Ok);
                let entry = StakeEntry { participant: *participant, account: acc };
                self.entries.push(entry);
                proof {
                    lemma_lookup_absent(e0, participant@);
                    assert(self.entries@ == e0.push(entry));
                    assert(e0.push(entry).drop_last() =~= e0);
                    assert forall|q: Seq<u8>| true implies lookup(e0.push(entry), q) == (if entry.participant@ == q {
                        Some(entry.account)
                    } else {
                        lookup(e0, q)
                    }) by {
                        lemma_lookup_push(e0, entry, q);
                    }
                    assert forall|a: int, b: int|
                        0 <= a < self.entries@.len() && 0 <= b < self.entries@.len() && a != b
                        implies #[trigger] self.entries@[a].participant@ != #[trigger] self.entries@[b].participant@ by {
                        if a < e0.len() && b < e0.len() {
                            assert(self.entries@[a] == e0[a] && self.entries@[b] == e0[b]);
                        } else if a < e0.len() {
                            assert(self.entries@[a] == e0[a]);
                        } else {
                            assert(self.entries@[b] == e0[b]);
                        }
                    }
                }
            },
        }
        Ok(())
    }

    /// The reward of `participant` from a pool of `pool_amount`: their share
    /// of the total staking score, rounded down; zero for one without a
    /// record. Fails with `NoStakingScore` while the total score is zero.
    pub fn compute_reward(&self, participant: &[u8; 32], pool_amount: u64) -> (r: Result<u64, CustomError>)
        requires
            self.wf(),
        ensures
            self.totals().total_staking_score == 0 ==> r == Err::<u64, CustomError>(CustomError::NoStakingScore),
            self.totals().total_staking_score > 0 ==> r == Ok::<u64, CustomError>(
                match self.record(participant@) {
                    Some(a) => reward_for(a.staking_score, self.totals().total_staking_score, pool_amount) as u64,
                    None => 0u64,
                }),
    {
        let total = self.account.total_staking_score;
        if total == 0 {
            return Err(CustomError::NoStakingScore);
        }
        proof {
            lemma_lookup_within_sums(self.entries@, participant@);
        }
        match self.user_account(participant) {
            Some(a) => {
                let score = a.staking_score;
                assert((score as int) * (pool_amount as int) <= u64::MAX as int * u64::MAX as int) by (nonlinear_arith)
                    requires
                        score <= u64::MAX,
                        pool_amount <= u64::MAX,
                ;
                let q: u128 = (score as u128) * (pool_amount as u128) / (total as u128);
                assert(q <= pool_amount) by (nonlinear_arith)
                    requires
                        q == (score as int * pool_amount as int) / total as int,
                        score <= total,
                        total > 0,
                ;
                Ok(q as u64)
            },
            None => Ok(0),
        }
    }
}

/// The pools that trading fees are split into.
#[derive(Debug, Clone, Copy, PartialEq, Eq, Structural)]
pub enum PoolName {
    BurnPool,
    TeamPool,
    StakingRewardsPool,
    LastPushPool,
    PremiumPackPool,
}

/// Position of a pool in the ledger.
pub open spec fn pool_index(p: PoolName) -> int {
    match p {
        PoolName::BurnPool => 0,
        PoolName::TeamPool => 1,
        PoolName::StakingRewardsPool => 2,
        PoolName::LastPushPool => 3,
        PoolName::PremiumPackPool => 4,
    }
}

/// The pool a name designates.
pub open spec fn pool_named(name: Seq<char>) -> Option<PoolName> {
    if name == "burn_pool"@ {
        Some(PoolName::BurnPool)
    } else if name == "team_pool"@ {
        Some(PoolName::TeamPool)
    } else if name == "staking_rewards_pool"@ {
        Some(PoolName::StakingRewardsPool)
    } else if name == "last_push_pool"@ {
        Some(PoolName::LastPushPool)
    } else if name == "premium_pack_pool"@ {
        Some(PoolName::PremiumPackPool)
    } else {
        None
    }
}

impl PoolName {
    /// The pool called `name`, if any.
    pub fn from_name(name: &String) -> (r: Option<PoolName>)
        ensures
            r == pool_named(name@),
    {
        if name.eq(&"burn_pool".to_owned()) {
            Some(PoolName::BurnPool)
        } else if name.eq(&"team_pool".to_owned()) {
            Some(PoolName::TeamPool)
        } else if name.eq(&"staking_rewards_pool".to_owned()) {
            Some(PoolName::StakingRewardsPool)
        } else if name.eq(&"last_push_pool".to_owned()) {
            Some(PoolName::LastPushPool)
        } else if name.eq(&"premium_pack_pool".to_owned()) {
            Some(PoolName::PremiumPackPool)
        } else {
            None
        }
    }

    /// The pool's name.
    pub fn name(&self) -> (r: String)
        ensures
            pool_named(r@) == Some(*self),
    {
        proof {
            reveal_strlit("burn_pool");
            reveal_strlit("team_pool");
            reveal_strlit("staking_rewards_pool");
            reveal_strlit("last_push_pool");
            reveal_strlit("premium_pack_pool");
        }
        let r = match self {
            PoolName::BurnPool => "burn_pool".to_owned(),
            PoolName::TeamPool => "team_pool".to_owned(),
            PoolName::StakingRewardsPool => "staking_rewards_pool".to_owned(),
            PoolName::LastPushPool => "last_push_pool".to_owned(),
            PoolName::PremiumPackPool => "premium_pack_pool".to_owned(),
        };
        // The five names differ in their first character.
        assert(r@[0] != "burn_pool"@[0] ==> r@ != "burn_pool"@);
        assert(r@[0] != "team_pool"@[0] ==> r@ != "team_pool"@);
        assert(r@[0] != "staking_rewards_pool"@[0] ==> r@ != "staking_rewards_pool"@);
        assert(r@[0] != "last_push_pool"@[0] ==> r@ != "last_push_pool"@);
        r
    }

    /// Position of the pool in the ledger.
    pub fn index(&self) -> (r: usize)
        ensures
            r == pool_index(*self),
    {
        match self {
            PoolName::BurnPool => 0,
            PoolName::TeamPool => 1,
            PoolName::StakingRewardsPool => 2,
            PoolName::LastPushPool => 3,
            PoolName::PremiumPackPool => 4,
        }
    }
}

/// A pool's name and balance.
#[derive(Debug)]
pub struct Pool {
    pub name: String,
    pub amount: u64,
}

/// The split of trading fees: 30% burn, 30% team, 10% staking rewards,
/// 10% last push, 20% premium pack.
pub fn fee_splits() -> (r: SplitTable)
    ensures
        r.wf(),
        r.numerators() == seq![30u64, 30u64, 10u64, 10u64, 20u64],
        r.denominator() == 100,
{
    let v: Vec<u64> = vec![30, 30, 10, 10, 20];
    proof {
        let s = v@;
        assert(s == seq![30u64, 30u64, 10u64, 10u64, 20u64]);
        assert(s.drop_last() =~= seq![30u64, 30u64, 10u64, 10u64]);
        assert(s.drop_last().drop_last() =~= seq![30u64, 30u64, 10u64]);
        assert(s.drop_last().drop_last().drop_last() =~= seq![30u64, 30u64]);
        assert(s.drop_last().drop_last().drop_last().drop_last() =~= seq![30u64]);
        assert(seq![30u64].drop_last() =~= Seq::<u64>::empty());
        reveal_with_fuel(crate::ledger::sum_of, 6);
    }
    match SplitTable::new(v, 100) {
        Some(t) => t,
        None => vstd::pervasive::unreached(),
    }
}

/// A claim whose amount has left its pool while the transfer to the
/// claimant is outstanding.
pub struct PendingClaim {
    pool: PoolName,
    amount: u64,
}

impl PendingClaim {
    pub closed spec fn pool(&self) -> PoolName {
        self.pool
    }

    pub closed spec fn amount(&self) -> u64 {
        self.amount
    }
}

/// The fee pools and how trading fees are split among them.
pub struct StakingPools {
    ledger: PoolLedger,
    splits: SplitTable,
}

impl StakingPools {
    /// The balances, in the order of `pool_index`.
    pub closed spec fn balances(&self) -> Seq<u64> {
        self.ledger@
    }

    pub closed spec fn splits(&self) -> SplitTable {
        self.splits
    }

    pub open spec fn wf(&self) -> bool {
        &&& self.balances().len() == 5
        &&& self.splits().wf()
        &&& self.splits().numerators().len() == 5
    }

    /// Five empty pools with the fee split of `fee_splits`.
    pub fn initialize() -> (r: StakingPools)
        ensures
            r.wf(),
            r.balances() == seq![0u64, 0u64, 0u64, 0u64, 0u64],
            r.splits().numerators() == seq![30u64, 30u64, 10u64, 10u64, 20u64],
            r.splits().denominator() == 100,
    {
        let ledger = PoolLedger::new(5);
        assert(ledger@ =~= seq![0u64, 0u64, 0u64, 0u64, 0u64]);
        StakingPools { ledger, splits: fee_splits() }
    }

    /// The five pools holding the given balances, with the fee split of
    /// `fee_splits`.
    pub fn from_balances(burn: u64, team: u64, staking_rewards: u64, last_push: u64, premium_pack: u64) -> (r: StakingPools)
        ensures
            r.wf(),
            r.balances() == seq![burn, team, staking_rewards, last_push, premium_pack],
            r.splits().numerators() == seq![30u64, 30u64, 10u64, 10u64, 20u64],
            r.splits().denominator() == 100,
    {
        let mut ledger = PoolLedger::new(5);
        let _ = ledger.credit(0, burn);
        let _ = ledger.credit(1, team);
        let _ = ledger.credit(2, staking_rewards);
        let _ = ledger.credit(3, last_push);
        let _ = ledger.credit(4, premium_pack);
        assert(ledger@ =~= seq![burn, team, staking_rewards, last_push, premium_pack]);
        StakingPools { ledger, splits: fee_splits() }
    }

    /// Balance of pool `p`.
    pub fn balance(&self, p: PoolName) -> (r: u64)
        requires
            self.wf(),
        ensures
            r == self.balances()[pool_index(p)],
    {
        self.ledger.balance(p.index())
    }

    /// Name and balance of pool `p`.
    pub fn pool(&self, p: PoolName) -> (r: Pool)
        requires
            self.wf(),
        ensures
            r.amount == self.balances()[pool_index(p)],
            pool_named(r.name@) == Some(p),
    {
        Pool { name: p.name(), amount: self.balance(p) }
    }

    /// Splits `amount` of trading fees into the pools. All or nothing:
    /// where a pool cannot take its share, fails with `Overflow` and changes
    /// nothing.
    pub fn allocate_pools(&mut self, amount: u64) -> (r: Result<(), CustomError>)
        requires
            old(self).wf(),
        ensures
            final(self).wf(),
            final(self).splits() == old(self).splits(),
            allocation_fits(old(self).balances(), amount, old(self).splits().numerators(), old(self).splits().denominator())
                ==> r is Ok && final(self).balances() == allocated(
                old(self).balances(),
                amount,
                old(self).splits().numerators(),
                old(self).splits().denominator(),
            ),
            !allocation_fits(old(self).balances(), amount, old(self).splits().numerators(), old(self).splits().denominator())
                ==> r == Err::<(), CustomError>(CustomError::Overflow) && final(self).balances() == old(self).balances(),
    {
        match self.ledger.allocate(amount, &self.splits) {
            Ok(()) => Ok(()),
            Err(_) => Err(CustomError::Overflow),
        }
    }

    /// Starts a claim of `amount` from the pool called `pool_name` by
    /// `user_address`: checks the proof against `tree`, the amount, the
    /// name and the balance, in that order, and debits the pool. The
    /// transfer to the claimant is then owed, and `settle_claim` finishes
    /// the claim. On any error nothing changes.
    pub fn claim_rewards(
        &mut self,
        tree: &MerkleTree,
        amount: u64,
        pool_name: &String,
        user_address: &[u8; 32],
        proof: &Vec<[u8; 32]>,
    ) -> (r: Result<PendingClaim, CustomError>)
        requires
            old(self).wf(),
        ensures
            final(self).wf(),
            final(self).splits() == old(self).splits(),
            !proof_valid(user_address@, amount, proof@, tree.merkle_root@)
                ==> r == Err::<PendingClaim, CustomError>(CustomError::CPIToMerkleFailed),
            proof_valid(user_address@, amount, proof@, tree.merkle_root@) && amount == 0
                ==> r == Err::<PendingClaim, CustomError>(CustomError::InvalidAmount),
            proof_valid(user_address@, amount, proof@, tree.merkle_root@) && amount > 0 ==> match pool_named(pool_name@) {
                None => r == Err::<PendingClaim, CustomError>(CustomError::InvalidPoolName),
                Some(p) => if amount > old(self).balances()[pool_index(p)] {
                    r == Err::<PendingClaim, CustomError>(CustomError::InsufficientFunds)
                } else {
                    (r matches Ok(c) && c.pool() == p && c.amount() == amount)
                        && final(self).balances() == debited(old(self).balances(), pool_index(p), amount)
                },
            },
            r is Err ==> final(self).balances() == old(self).balances(),
    {
        if check_claim(tree, user_address, amount, proof).is_err() {
            return Err(CustomError::CPIToMerkleFailed);
        }
        if amount == 0 {
            return Err(CustomError::InvalidAmount);
        }
        let pool = match PoolName::from_name(pool_name) {
            Some(p) => p,
            None => {
                return Err(CustomError::InvalidPoolName);
            },
        };
        match self.ledger.debit(pool.index(), amount) {
            Ok(()) => Ok(PendingClaim { pool, amount }),
            Err(_) => Err(CustomError::InsufficientFunds),
        }
    }

    /// Finishes a claim once the transfer to the claimant is known to have
    /// succeeded or failed. A failed transfer credits the amount back to
    /// its pool and gives `TransferFailed`; should the pool have grown so
    /// far meanwhile that the credit would overflow, `Overflow` instead,
    /// with nothing changed.
    pub fn settle_claim(&mut self, claim: PendingClaim, transfer_succeeded: bool) -> (r: Result<(), CustomError>)
        requires
            old(self).wf(),
        ensures
            final(self).wf(),
            final(self).splits() == old(self).splits(),
            transfer_succeeded ==> r is Ok && final(self).balances() == old(self).balances(),
            !transfer_succeeded && old(self).balances()[pool_index(claim.pool())] + claim.amount() <= u64::MAX
                ==> r == Err::<(), CustomError>(CustomError::TransferFailed)
                && final(self).balances() == credited(old(self).balances(), pool_index(claim.pool()), claim.amount()),
            !transfer_succeeded && old(self).balances()[pool_index(claim.pool())] + claim.amount() > u64::MAX
                ==> r == Err::<(), CustomError>(CustomError::Overflow) && final(self).balances() == old(self).balances(),
    {
        if transfer_succeeded {
            return Ok(());
        }
        match self.ledger.credit(claim.pool.index(), claim.amount) {
            Ok(()) => Err(CustomError::TransferFailed),
            Err(_) => Err(CustomError::Overflow),
        }
    }
}

/// Sets up staking: an empty registry for the given fee pool and admin,
/// and the five fee pools, empty.
pub fn initialize(trading_fee_pool: [u8; 32], admin: [u8; 32]) -> (r: (StakeRegistry, StakingPools))
    ensures
        r.0.wf(),
        r.0.totals().trading_fee_pool == trading_fee_pool,
        r.0.totals().admin == admin,
        r.0.totals().total_staked == 0,
        r.0.totals().total_staking_score == 0,
        forall|p: Seq<u8>| r.0.record(p) is None,
        r.1.wf(),
        r.1.balances() == seq![0u64, 0u64, 0u64, 0u64, 0u64],
        r.1.splits().numerators() == seq![30u64, 30u64, 10u64, 10u64, 20u64],
        r.1.splits().denominator() == 100,
{
    (StakeRegistry::initialize(trading_fee_pool, admin), StakingPools::initialize())
}

} // verus!
