//! Pool records, the transfers that move assets in and out of pool custody,
//! and the arithmetic of the allocation ledger over a sequence of pools.
use vstd::prelude::*;

verus! {

/// Largest allocation, in basis points, that all pools together may hold.
pub const MAX_ALLOCATION: u32 = 10000;

/// One liquidity pool. `balances[j]` is what the pool holds in custody of
/// `assets[j]`.
#[derive(Debug)]
pub struct PoolInfo {
    pub pool_address: u64,
    pub assets: Vec<u64>,
    pub balances: Vec<i128>,
    pub allocation_percentage: u32,
    pub created_at: u64,
}

/// Mathematical value of a pool record.
pub struct PoolView {
    pub pool_address: u64,
    pub assets: Seq<u64>,
    pub balances: Seq<i128>,
    pub allocation_percentage: u32,
    pub created_at: u64,
}

impl View for PoolInfo {
    type V = PoolView;

    open spec fn view(&self) -> PoolView {
        PoolView {
            pool_address: self.pool_address,
            assets: self.assets@,
            balances: self.balances@,
            allocation_percentage: self.allocation_percentage,
            created_at: self.created_at,
        }
    }
}

impl PoolView {
    /// Backing assets are non-empty and distinct, each has a non-negative
    /// custody balance, and the allocation is at most 100%.
    pub open spec fn wf(self) -> bool {
        &&& self.assets.len() > 0
        &&& self.assets.no_duplicates()
        &&& self.balances.len() == self.assets.len()
        &&& forall|j: int| 0 <= j < self.balances.len() ==> self.balances[j] >= 0
        &&& self.allocation_percentage <= MAX_ALLOCATION
    }

    /// What the pool holds of `asset`: zero for an asset that does not back it.
    pub open spec fn custody(self, asset: u64) -> int {
        if self.assets.contains(asset) {
            self.balances[self.assets.index_of(asset)] as int
        } else {
            0
        }
    }

    /// The same pool with the custody balance at position `j` replaced.
    pub open spec fn with_balance(self, j: int, balance: i128) -> PoolView {
        PoolView { balances: self.balances.update(j, balance), ..self }
    }

    /// The same pool with the custody of `asset` set to `balance`.
    pub open spec fn with_custody(self, asset: u64, balance: i128) -> PoolView {
        self.with_balance(self.assets.index_of(asset), balance)
    }

    /// The same pool with another allocation.
    pub open spec fn with_allocation(self, allocation_percentage: u32) -> PoolView {
        PoolView { allocation_percentage, ..self }
    }
}

/// In a sequence without duplicates, the position of an element is the one
/// that `index_of` names.
pub proof fn lemma_index_of_unique(s: Seq<u64>, j: int)
    requires
        s.no_duplicates(),
        0 <= j < s.len(),
    ensures
        s.contains(s[j]),
        s.index_of(s[j]) == j,
{
    assert(s.contains(s[j]));
}

/// Who sends or receives a transfer: an account, or the custody of a pool.
#[derive(Clone, Copy, Debug, PartialEq, Eq, Structural)]
pub enum Party {
    Account(u64),
    Pool(u64),
}

/// A movement of `amount` units of `asset` from one party to another, to be
/// carried out by the asset-transfer primitive.
#[derive(Clone, Copy, Debug, PartialEq, Eq, Structural)]
pub struct Transfer {
    pub asset: u64,
    pub from: Party,
    pub to: Party,
    pub amount: i128,
}

/// Sum of the allocations of all pools of `pools`.
pub open spec fn allocation_total(pools: Seq<PoolView>) -> int
    decreases pools.len(),
{
    if pools.len() == 0 {
        0
    } else {
        allocation_total(pools.drop_last()) + pools.last().allocation_percentage
    }
}

/// Appending a pool adds its allocation to the total.
pub proof fn lemma_total_push(pools: Seq<PoolView>, p: PoolView)
    ensures
        allocation_total(pools.push(p)) == allocation_total(pools) + p.allocation_percentage,
{
    assert(pools.push(p).drop_last() =~= pools);
}

/// The total is never negative, and it is at least the allocation of any one pool.
pub proof fn lemma_total_bounds(pools: Seq<PoolView>, i: int)
    requires
        0 <= i < pools.len(),
    ensures
        0 <= pools[i].allocation_percentage <= allocation_total(pools),
    decreases pools.len(),
{
    lemma_total_nonneg(pools.drop_last());
    if i < pools.len() - 1 {
        lemma_total_bounds(pools.drop_last(), i);
    }
}

/// The total is never negative.
pub proof fn lemma_total_nonneg(pools: Seq<PoolView>)
    ensures
        0 <= allocation_total(pools),
    decreases pools.len(),
{
    if pools.len() > 0 {
        lemma_total_nonneg(pools.drop_last());
    }
}

/// Replacing one pool changes the total by the difference of the two allocations.
pub proof fn lemma_total_update(pools: Seq<PoolView>, i: int, p: PoolView)
    requires
        0 <= i < pools.len(),
    ensures
        allocation_total(pools.update(i, p)) == allocation_total(pools)
            - pools[i].allocation_percentage + p.allocation_percentage,
    decreases pools.len(),
{
    let u = pools.update(i, p);
    if i == pools.len() - 1 {
        assert(u.drop_last() =~= pools.drop_last());
    } else {
        assert(u.drop_last() =~= pools.drop_last().update(i, p));
        lemma_total_update(pools.drop_last(), i, p);
    }
}

/// Position of `asset` among `assets`, if it is there.
pub fn find_asset(assets: &Vec<u64>, asset: u64) -> (r: Option<usize>)
    ensures
        match r {
            Some(j) => j < assets@.len() && assets@[j as int] == asset,
            None => !assets@.contains(asset),
        },
{
    let mut j: usize = 0;
    while j < assets.len()
        invariant
            j <= assets@.len(),
            forall|k: int| 0 <= k < j ==> assets@[k] != asset,
        decreases assets@.len() - j,
    {
        if assets[j] == asset {
            return Some(j);
        }
        j = j + 1;
    }
    None
}

/// Whether no asset occurs twice in `assets`.
pub fn all_distinct(assets: &Vec<u64>) -> (r: bool)
    ensures
        r == assets@.no_duplicates(),
{
    let n = assets.len();
    let mut i: usize = 0;
    while i < n
        invariant
            n == assets@.len(),
            i <= n,
            forall|a: int, b: int| 0 <= a < i && 0 <= b < n && a != b ==> assets@[a] != assets@[b],
        decreases n - i,
    {
        let mut k: usize = i + 1;
        while k < n
            invariant
                n == assets@.len(),
                i < n,
                i + 1 <= k <= n,
                forall|a: int, b: int| 0 <= a < i && 0 <= b < n && a != b ==> assets@[a] != assets@[b],
                forall|b: int| i < b < k ==> assets@[i as int] != assets@[b],
            decreases n - k,
        {
            if assets[i] == assets[k] {
                return false;
            }
            k = k + 1;
        }
        i = i + 1;
    }
    true
}

/// Allocation of the first `k` pools never exceeds that of all of them.
pub proof fn lemma_total_prefix(pools: Seq<PoolView>, k: int)
    requires
        0 <= k <= pools.len(),
    ensures
        allocation_total(pools.take(k)) <= allocation_total(pools),
    decreases pools.len(),
{
    if k == pools.len() {
        assert(pools.take(k) =~= pools);
    } else {
        assert(pools.take(k) =~= pools.drop_last().take(k));
        lemma_total_prefix(pools.drop_last(), k);
    }
}

impl PoolInfo {
    /// Whether this record is a well-formed pool.
    pub fn is_well_formed(&self) -> (r: bool)
        ensures
            r == self@.wf(),
    {
        if self.assets.len() == 0 || self.balances.len() != self.assets.len()
            || self.allocation_percentage > MAX_ALLOCATION || !all_distinct(&self.assets) {
            return false;
        }
        let mut j: usize = 0;
        while j < self.balances.len()
            invariant
                j <= self.balances@.len(),
                forall|k: int| 0 <= k < j ==> self.balances@[k] >= 0,
            decreases self.balances@.len() - j,
        {
            if self.balances[j] < 0 {
                return false;
            }
            j = j + 1;
        }
        true
    }
}

} // verus!
