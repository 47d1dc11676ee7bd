//! Properties that relate several operations of the liquidity manager,
//! stated over the mathematical values that the operations' contracts use.
use vstd::prelude::*;

use crate::error::LiquidityError;
use crate::fees::{fee_of, lemma_fee_bounds, REBALANCE_FEE_BASIS_POINTS};
use crate::manager::ManagerView;
use crate::pool::{
    allocation_total, lemma_total_bounds, lemma_total_push, lemma_total_update, Transfer,
    MAX_ALLOCATION,
};

verus! {

/// Creating a pool keeps every pool well formed and the sum of all
/// allocations at or below 100%, whether or not the creation succeeds. It
/// adds at most one pool.
pub proof fn lemma_create_keeps_ceiling(
    m: ManagerView,
    caller: u64,
    assets: Seq<u64>,
    pct: u32,
    now: u64,
)
    requires
        m.wf(),
        m.pools.len() < u64::MAX,
    ensures
        m.create_result(caller, assets, pct, now).0.wf(),
        m.create_result(caller, assets, pct, now).0.pools.len() <= m.pools.len() + 1,
{
    if m.create_error(caller, assets, pct) is None {
        let np = m.new_pool(assets, pct, now);
        let after = m.create_result(caller, assets, pct, now).0;
        lemma_total_push(m.pools, np);
        assert(after.pools == m.pools.push(np));
        assert forall|j: int| 0 <= j < np.balances.len() implies np.balances[j] >= 0 by {}
        assert forall|i: int| 0 <= i < after.pools.len() implies #[trigger] after.pools[i].wf()
            && after.pools[i].pool_address as int == i by {
            if i < m.pools.len() {
                assert(after.pools[i] == m.pools[i]);
            }
        }
    }
}

/// Rebalancing a pool keeps every pool well formed and the sum of all
/// allocations at or below 100%, whether or not the rebalance succeeds.
pub proof fn lemma_rebalance_keeps_ceiling(
    m: ManagerView,
    caller: u64,
    pool: u64,
    pct: u32,
    moved_amount: i128,
)
    requires
        m.wf(),
    ensures
        m.rebalance_result(caller, pool, pct, moved_amount).0.wf(),
        m.rebalance_result(caller, pool, pct, moved_amount).0.pools.len() == m.pools.len(),
{
    if m.rebalance_error(caller, pool, pct, moved_amount) is None {
        let i = pool as int;
        let p = m.pools[i];
        let fee = fee_of(moved_amount as int, REBALANCE_FEE_BASIS_POINTS as int);
        lemma_fee_bounds(moved_amount as int, REBALANCE_FEE_BASIS_POINTS as int);
        lemma_total_bounds(m.pools, i);
        assert(p.wf());
        let np = p.with_allocation(pct).with_balance(0, (p.balances[0] - fee) as i128);
        let after = m.rebalance_result(caller, pool, pct, moved_amount).0;
        assert(after.pools == m.pools.update(i, np));
        lemma_total_update(m.pools, i, np);
        assert forall|j: int| 0 <= j < np.balances.len() implies np.balances[j] >= 0 by {
            if j != 0 {
                assert(np.balances[j] == p.balances[j]);
            }
        }
        assert forall|k: int| 0 <= k < after.pools.len() implies #[trigger] after.pools[k].wf()
            && after.pools[k].pool_address as int == k by {
            if k != i {
                assert(after.pools[k] == m.pools[k]);
            }
        }
    }
}

/// One call that can change allocations: a pool creation or a rebalance.
pub enum AllocationStep {
    Create { caller: u64, assets: Seq<u64>, pct: u32, now: u64 },
    Rebalance { caller: u64, pool: u64, pct: u32, moved_amount: i128 },
}

/// The state after one step.
pub open spec fn apply_step(m: ManagerView, step: AllocationStep) -> ManagerView {
    match step {
        AllocationStep::Create { caller, assets, pct, now } => m.create_result(
            caller,
            assets,
            pct,
            now,
        ).0,
        AllocationStep::Rebalance { caller, pool, pct, moved_amount } => m.rebalance_result(
            caller,
            pool,
            pct,
            moved_amount,
        ).0,
    }
}

/// The state after running `steps` in order from `m`.
pub open spec fn apply_steps(m: ManagerView, steps: Seq<AllocationStep>) -> ManagerView
    decreases steps.len(),
{
    if steps.len() == 0 {
        m
    } else {
        apply_step(apply_steps(m, steps.drop_last()), steps.last())
    }
}

/// Any run of pool creations and rebalances from a well-formed state ends
/// in a well-formed state, with at most one pool more per step.
proof fn lemma_steps_keep_wf(m: ManagerView, steps: Seq<AllocationStep>)
    requires
        m.wf(),
        m.pools.len() + steps.len() < u64::MAX,
    ensures
        apply_steps(m, steps).wf(),
        apply_steps(m, steps).pools.len() <= m.pools.len() + steps.len(),
    decreases steps.len(),
{
    if steps.len() > 0 {
        lemma_steps_keep_wf(m, steps.drop_last());
        let before = apply_steps(m, steps.drop_last());
        match steps.last() {
            AllocationStep::Create { caller, assets, pct, now } => {
                lemma_create_keeps_ceiling(before, caller, assets, pct, now);
            },
            AllocationStep::Rebalance { caller, pool, pct, moved_amount } => {
                lemma_rebalance_keeps_ceiling(before, caller, pool, pct, moved_amount);
            },
        }
    }
}

/// For every sequence of pool creations and rebalances, the allocations of
/// all pools add up to at most 100% at every point of the sequence (for as
/// many pools as a `u64` identifier can number).
pub proof fn lemma_allocation_ceiling(m: ManagerView, steps: Seq<AllocationStep>)
    requires
        m.wf(),
        m.pools.len() + steps.len() < u64::MAX,
    ensures
        forall|k: int|
            0 <= k <= steps.len() ==> #[trigger] apply_steps(m, steps.take(k)).total()
                <= MAX_ALLOCATION,
{
    assert forall|k: int| 0 <= k <= steps.len() implies #[trigger] apply_steps(
        m,
        steps.take(k),
    ).total() <= MAX_ALLOCATION by {
        lemma_steps_keep_wf(m, steps.take(k));
    }
}

/// Once `initialize` has been called, a further call fails with
/// `AlreadyInitialized` and leaves the state, the configuration included,
/// as it was.
pub proof fn lemma_initialize_only_once(
    m: ManagerView,
    admin: u64,
    fee_collector: u64,
    admin2: u64,
    fee_collector2: u64,
)
    ensures
        ({
            let m1 = m.initialize_result(admin, fee_collector).0;
            m1.initialize_result(admin2, fee_collector2) == (
                m1,
                Err::<(), LiquidityError>(LiquidityError::AlreadyInitialized),
            )
        }),
{
}

/// A pool that takes the whole 100% can be created only while the
/// allocations of the existing pools add up to zero; after it, creating a
/// further pool with any positive allocation (by the administrator, over a
/// valid asset list, with an allocation of at most 100%) fails with
/// `AllocationExceeded`.
pub proof fn lemma_full_allocation_is_exclusive(
    m: ManagerView,
    caller: u64,
    assets: Seq<u64>,
    now: u64,
    caller2: u64,
    assets2: Seq<u64>,
    pct2: u32,
    now2: u64,
)
    requires
        m.wf(),
    ensures
        m.create_result(caller, assets, MAX_ALLOCATION, now).1 is Ok ==> m.total() == 0,
        ({
            let m1 = m.create_result(caller, assets, MAX_ALLOCATION, now).0;
            (m.create_result(caller, assets, MAX_ALLOCATION, now).1 is Ok && m1.is_admin(caller2)
                && assets2.len() > 0 && assets2.no_duplicates() && 0 < pct2 <= MAX_ALLOCATION)
                ==> m1.create_result(caller2, assets2, pct2, now2) == (
                m1,
                Err::<u64, LiquidityError>(LiquidityError::AllocationExceeded),
            )
        }),
{
    crate::pool::lemma_total_nonneg(m.pools);
    let np = m.new_pool(assets, MAX_ALLOCATION, now);
    lemma_total_push(m.pools, np);
}

/// The two transfers of a successful withdrawal, the net payout and the
/// fee, are both non-negative and add up to the amount withdrawn.
pub proof fn lemma_withdrawal_conserves(
    m: ManagerView,
    caller: u64,
    pool: u64,
    asset: u64,
    amount: i128,
    recipient: u64,
)
    ensures
        m.withdraw_result(caller, pool, asset, amount, recipient).1 matches Ok(
            (payout, fee),
        ) ==> payout.amount + fee.amount == amount && payout.amount >= 0 && fee.amount >= 0,
{
    if amount > 0 {
        lemma_fee_bounds(amount as int, crate::fees::WITHDRAWAL_FEE_BASIS_POINTS as int);
    }
}

} // verus!
