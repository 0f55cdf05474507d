//! A fixed set of pools, each a non-negative balance, changed only by
//! checked credits, checked debits and proportional allocations.
use vstd::prelude::*;

verus! {

#[derive(Debug, Clone, Copy, PartialEq, Eq, Structural)]
pub enum LedgerError {
    /// The debit is larger than the pool's balance.
    InsufficientFunds,
    /// A balance would leave the range of `u64`.
    Overflow,
}

/// Sum of a sequence of amounts.
pub open spec fn sum_of(s: Seq<u64>) -> int
    decreases s.len(),
{
    if s.len() == 0 {
        0
    } else {
        sum_of(s.drop_last()) + s.last()
    }
}

/// The part of `total` that a split of `numerator / denominator` gives,
/// rounded down.
pub open spec fn share(total: u64, numerator: u64, denominator: u64) -> int {
    (total as int * numerator as int) / denominator as int
}

/// The shares of `total` under each numerator of a split, in pool order.
pub open spec fn shares(total: u64, numerators: Seq<u64>, denominator: u64) -> Seq<int> {
    Seq::new(numerators.len(), |i: int| share(total, numerators[i], denominator))
}

/// Sum of the shares of `total` under the numerators.
pub open spec fn sum_shares(total: u64, numerators: Seq<u64>, denominator: u64) -> int
    decreases numerators.len(),
{
    if numerators.len() == 0 {
        0
    } else {
        sum_shares(total, numerators.drop_last(), denominator) + share(total, numerators.last(), denominator)
    }
}

/// Balances after `amount` leaves pool `pool`.
pub open spec fn debited(b: Seq<u64>, pool: int, amount: u64) -> Seq<u64> {
    b.update(pool, (b[pool] - amount) as u64)
}

/// Balances after `amount` enters pool `pool`.
pub open spec fn credited(b: Seq<u64>, pool: int, amount: u64) -> Seq<u64> {
    b.update(pool, (b[pool] + amount) as u64)
}

/// Every pool can take its share of `total` without leaving `u64`.
pub open spec fn allocation_fits(b: Seq<u64>, total: u64, numerators: Seq<u64>, denominator: u64) -> bool {
    forall|i: int| 0 <= i < b.len() ==> b[i] + share(total, #[trigger] numerators[i], denominator) <= u64::MAX
}

/// Balances after each pool received its share of `total`.
pub open spec fn allocated(b: Seq<u64>, total: u64, numerators: Seq<u64>, denominator: u64) -> Seq<u64> {
    Seq::new(b.len(), |i: int| (b[i] + share(total, numerators[i], denominator)) as u64)
}

/// A prefix, and an element, of a sequence of amounts is at most its sum.
pub proof fn lemma_sum_bound(s: Seq<u64>, i: int)
    requires
        0 <= i <= s.len(),
    ensures
        0 <= sum_of(s.take(i)) <= sum_of(s),
        i < s.len() ==> s[i] <= sum_of(s),
    decreases s.len(),
{
    if s.len() > 0 {
        let t = s.drop_last();
        if i < s.len() {
            lemma_sum_bound(t, i);
            assert(t.take(i) =~= s.take(i));
            if i < t.len() {
                assert(t[i] == s[i]);
            } else {
                lemma_sum_bound(t, 0);
            }
        } else {
            lemma_sum_bound(t, t.len() as int);
            assert(s.take(i) =~= s);
            assert(t.take(t.len() as int) =~= t);
        }
    } else {
        assert(s.take(i) =~= s);
    }
}

proof fn lemma_sum_shares_scaled(total: u64, numerators: Seq<u64>, denominator: u64)
    requires
        denominator > 0,
    ensures
        sum_shares(total, numerators, denominator) * denominator <= total * sum_of(numerators),
        sum_shares(total, numerators, denominator) >= 0,
    decreases numerators.len(),
{
    if numerators.len() > 0 {
        lemma_sum_shares_scaled(total, numerators.drop_last(), denominator);
        let a = sum_shares(total, numerators.drop_last(), denominator);
        let n = numerators.last() as int;
        let t = total as int;
        let d = denominator as int;
        let q = (t * n) / d;
        assert(q * d <= t * n && q >= 0) by (nonlinear_arith)
            requires
                d > 0,
                t >= 0,
                n >= 0,
                q == (t * n) / d,
        ;
        assert((a + q) * d == a * d + q * d) by (nonlinear_arith);
        assert(t * sum_of(numerators) == t * sum_of(numerators.drop_last()) + t * n) by (nonlinear_arith)
            requires
                sum_of(numerators) == sum_of(numerators.drop_last()) + n,
        ;
    }
}

/// Splitting never credits more than the amount split: where the numerators
/// sum to at most the denominator, the shares of `total` sum to at most
/// `total`.
pub proof fn lemma_allocation_bounded(total: u64, numerators: Seq<u64>, denominator: u64)
    requires
        denominator > 0,
        sum_of(numerators) <= denominator,
    ensures
        0 <= sum_shares(total, numerators, denominator) <= total,
{
    lemma_sum_shares_scaled(total, numerators, denominator);
    let s = sum_shares(total, numerators, denominator);
    let t = total as int;
    let d = denominator as int;
    let n = sum_of(numerators);
    assert(t * n <= t * d) by (nonlinear_arith)
        requires
            t >= 0,
            n <= d,
    ;
    assert(s <= t) by (nonlinear_arith)
        requires
            s * d <= t * d,
            d > 0,
    ;
}

proof fn lemma_sum_shares_lower(total: u64, numerators: Seq<u64>, denominator: u64)
    requires
        denominator > 0,
    ensures
        sum_shares(total, numerators, denominator) * denominator + numerators.len() * (denominator - 1)
            >= total * sum_of(numerators),
    decreases numerators.len(),
{
    if numerators.len() > 0 {
        lemma_sum_shares_lower(total, numerators.drop_last(), denominator);
        let a = sum_shares(total, numerators.drop_last(), denominator);
        let n = numerators.last() as int;
        let t = total as int;
        let d = denominator as int;
        let k = numerators.drop_last().len() as int;
        let q = (t * n) / d;
        assert(q * d + (d - 1) >= t * n) by (nonlinear_arith)
            requires
                d > 0,
                t >= 0,
                n >= 0,
                q == (t * n) / d,
        ;
        assert((a + q) * d == a * d + q * d) by (nonlinear_arith);
        assert((k + 1) * (d - 1) == k * (d - 1) + (d - 1)) by (nonlinear_arith);
        assert(t * sum_of(numerators) == t * sum_of(numerators.drop_last()) + t * n) by (nonlinear_arith)
            requires
                sum_of(numerators) == sum_of(numerators.drop_last()) + n,
        ;
    }
}

/// Rounding loses little: where the numerators make up the whole, the
/// shares of `total` fall short of it by less than the number of pools.
pub proof fn lemma_allocation_loss_bounded(total: u64, numerators: Seq<u64>, denominator: u64)
    requires
        denominator > 0,
        sum_of(numerators) == denominator,
        numerators.len() > 0,
    ensures
        total - sum_shares(total, numerators, denominator) < numerators.len(),
{
    lemma_sum_shares_lower(total, numerators, denominator);
    let s = sum_shares(total, numerators, denominator);
    let t = total as int;
    let d = denominator as int;
    let k = numerators.len() as int;
    assert(s > t - k) by (nonlinear_arith)
        requires
            s * d + k * (d - 1) >= t * d,
            d > 0,
            k > 0,
    ;
}

/// A rollback restores what a debit took: crediting back the amount of a
/// successful debit gives the balances from before it.
pub proof fn lemma_rollback_restores(b: Seq<u64>, pool: int, amount: u64)
    requires
        0 <= pool < b.len(),
        amount <= b[pool],
    ensures
        credited(debited(b, pool, amount), pool, amount) == b,
{
    assert(credited(debited(b, pool, amount), pool, amount) =~= b);
}

/// Debits against one pool are serialized: after a debit of `first`
/// succeeded, a second of `second` that together with it would overdraw
/// the pool exceeds what is left.
pub proof fn lemma_no_joint_overdraw(b: Seq<u64>, pool: int, first: u64, second: u64)
    requires
        0 <= pool < b.len(),
        first <= b[pool],
        first + second > b[pool],
    ensures
        second > debited(b, pool, first)[pool],
{
}

/// How a fixed amount is divided among the pools: pool `i` receives
/// `numerators[i] / denominator` of it.
pub struct SplitTable {
    numerators: Vec<u64>,
    denominator: u64,
}

impl SplitTable {
    pub closed spec fn numerators(&self) -> Seq<u64> {
        self.numerators@
    }

    pub closed spec fn denominator(&self) -> u64 {
        self.denominator
    }

    /// The fractions are proper and together at most one whole.
    pub open spec fn wf(&self) -> bool {
        self.denominator() > 0 && sum_of(self.numerators()) <= self.denominator()
    }

    /// A table of the given fractions; `None` where the denominator is zero
    /// or the numerators sum to more than it.
    pub fn new(numerators: Vec<u64>, denominator: u64) -> (r: Option<SplitTable>)
        ensures
            match r {
                Some(t) => t.wf() && t.numerators() == numerators@ && t.denominator() == denominator,
                None => denominator == 0 || sum_of(numerators@) > denominator,
            },
    {
        if denominator == 0 {
            return None;
        }
        let mut acc: u64 = 0;
        let mut i: usize = 0;
        while i < numerators.len()
            invariant
                i <= numerators@.len(),
                acc == sum_of(numerators@.take(i as int)),
                acc <= denominator,
            decreases numerators@.len() - i,
        {
            assert(numerators@.take(i as int + 1).drop_last() =~= numerators@.take(i as int));
            if numerators[i] > denominator - acc {
                proof {
                    lemma_sum_bound(numerators@, i as int + 1);
                }
                return None;
            }
            acc = acc + numerators[i];
            i = i + 1;
        }
        assert(numerators@.take(numerators@.len() as int) =~= numerators@);
        Some(SplitTable { numerators, denominator })
    }

    /// Number of pools the table splits among.
    pub fn len(&self) -> (r: usize)
        ensures
            r == self.numerators().len(),
    {
        self.numerators.len()
    }

    /// The share of `total` that pool `i` receives.
    pub fn share_of(&self, total: u64, i: usize) -> (r: u64)
        requires
            self.wf(),
            i < self.numerators().len(),
        ensures
            r == share(total, self.numerators()[i as int], self.denominator()),
            r <= total,
    {
        proof {
            lemma_sum_bound(self.numerators@, i as int);
        }
        let n = self.numerators[i];
        let d = self.denominator;
        assert((total as int) * (n as int) <= u64::MAX as int * u64::MAX as int) by (nonlinear_arith)
            requires
                total <= u64::MAX,
                n <= u64::MAX,
        ;
        let prod: u128 = (total as u128) * (n as u128);
        let q: u128 = prod / (d as u128);
        assert(q <= total) by (nonlinear_arith)
            requires
                q == (total as int * n as int) / d as int,
                n <= d,
                d > 0,
        ;
        q as u64
    }
}

/// The balances of a fixed set of pools, addressed by position.
pub struct PoolLedger {
    balances: Vec<u64>,
}

impl View for PoolLedger {
    type V = Seq<u64>;

    closed spec fn view(&self) -> Seq<u64> {
        self.balances@
    }
}

impl PoolLedger {
    /// `n` pools, all empty.
    pub fn new(n: usize) -> (r: PoolLedger)
        ensures
            r@ == Seq::new(n as nat, |i: int| 0u64),
    {
        let mut balances: Vec<u64> = Vec::new();
        let mut i: usize = 0;
        while i < n
            invariant
                i <= n,
                balances@ == Seq::new(i as nat, |j: int| 0u64),
            decreases n - i,
        {
            balances.push(0);
            i = i + 1;
            assert(balances@ =~= Seq::new(i as nat, |j: int| 0u64));
        }
        PoolLedger { balances }
    }

    /// Number of pools.
    pub fn len(&self) -> (r: usize)
        ensures
            r == self@.len(),
    {
        self.balances.len()
    }

    /// Balance of pool `pool`.
    pub fn balance(&self, pool: usize) -> (r: u64)
        requires
            pool < self@.len(),
        ensures
            r == self@[pool as int],
    {
        self.balances[pool]
    }

    /// Adds `amount` to pool `pool`; fails with `Overflow`, changing nothing,
    /// where the balance would leave `u64`.
    pub fn credit(&mut self, pool: usize, amount: u64) -> (r: Result<(), LedgerError>)
        requires
            pool < old(self)@.len(),
        ensures
            old(self)@[pool as int] + amount <= u64::MAX ==> r is Ok && final(self)@ == credited(old(self)@, pool as int, amount),
            old(self)@[pool as int] + amount > u64::MAX ==> r == Err::<(), LedgerError>(LedgerError::Overflow) && final(self)@ == old(self)@,
    {
        let b = self.balances[pool];
        match b.checked_add(amount) {
            Some(nb) => {
                self.balances.set(pool, nb);
                Ok(())
            },
            None => Err(LedgerError::Overflow),
        }
    }

    /// Takes `amount` from pool `pool`; fails with `InsufficientFunds`,
    /// changing nothing, where the balance is smaller than `amount`.
    pub fn debit(&mut self, pool: usize, amount: u64) -> (r: Result<(), LedgerError>)
        requires
            pool < old(self)@.len(),
        ensures
            amount <= old(self)@[pool as int] ==> r is Ok && final(self)@ == debited(old(self)@, pool as int, amount),
            amount > old(self)@[pool as int] ==> r == Err::<(), LedgerError>(LedgerError::InsufficientFunds) && final(self)@ == old(self)@,
    {
        let b = self.balances[pool];
        if amount > b {
            return Err(LedgerError::InsufficientFunds);
        }
        match b.checked_sub(amount) {
            Some(nb) => {
                self.balances.set(pool, nb);
                Ok(())
            },
            None => Err(LedgerError::Overflow),
        }
    }

    /// Credits each pool with its share of `total` under `splits`. All or
    /// nothing: where one pool cannot take its share, fails with `Overflow`
    /// and changes nothing. What rounding leaves over is credited to no pool.
    pub fn allocate(&mut self, total: u64, splits: &SplitTable) -> (r: Result<(), LedgerError>)
        requires
            splits.wf(),
            splits.numerators().len() == old(self)@.len(),
        ensures
            allocation_fits(old(self)@, total, splits.numerators(), splits.denominator()) ==> r is Ok
                && final(self)@ == allocated(old(self)@, total, splits.numerators(), splits.denominator()),
            !allocation_fits(old(self)@, total, splits.numerators(), splits.denominator()) ==>
                r == Err::<(), LedgerError>(LedgerError::Overflow) && final(self)@ == old(self)@,
    {
        let ghost b0 = self.balances@;
        let ghost nums = splits.numerators();
        let ghost d = splits.denominator();
        let n = self.balances.len();
        let mut i: usize = 0;
        while i < n
            invariant
                n == b0.len(),
                self.balances@ == b0,
                splits.wf(),
                nums == splits.numerators(),
                d == splits.denominator(),
                nums.len() == n,
                i <= n,
                forall|j: int| 0 <= j < i ==> b0[j] + share(total, #[trigger] nums[j], d) <= u64::MAX,
            decreases n - i,
        {
            let s = splits.share_of(total, i);
            if self.balances[i] > u64::MAX - s {
                assert(!(b0[i as int] + share(total, nums[i as int], d) <= u64::MAX));
                return Err(LedgerError::Overflow);
            }
            i = i + 1;
        }
        assert(allocation_fits(b0, total, nums, d));
        let mut k: usize = 0;
        while k < n
            invariant
                n == b0.len(),
                splits.wf(),
                nums == splits.numerators(),
                d == splits.denominator(),
                nums.len() == n,
                k <= n,
                allocation_fits(b0, total, nums, d),
                self.balances@.len() == n,
                forall|j: int| 0 <= j < k ==> #[trigger] self.balances@[j] == b0[j] + share(total, nums[j], d),
                forall|j: int| k <= j < n ==> #[trigger] self.balances@[j] == b0[j],
            decreases n - k,
        {
            let s = splits.share_of(total, k);
            assert(b0[k as int] + share(total, nums[k as int], d) <= u64::MAX);
            let nb = self.balances[k] + s;
            self.balances.set(k, nb);
            k = k + 1;
        }
        assert(self.balances@ =~= allocated(b0, total, nums, d));
        Ok(())
    }
}

} // verus!
