//! The liquidity manager: one-time administration, the pool registry with its
//! allocation ledger, and the deposit, withdrawal and rebalance flows.
//!
//! Every operation validates first and changes nothing when it fails. An
//! operation that succeeds updates the in-memory state and hands back the
//! transfers that the host has to carry out; [`LiquidityManager::settle`]
//! keeps the new state only when those transfers went through.
use vstd::prelude::*;

use crate::error::LiquidityError;
use crate::fees::{
    fee_of, rebalance_fee, withdrawal_fee, REBALANCE_FEE_BASIS_POINTS,
    WITHDRAWAL_FEE_BASIS_POINTS,
};
use crate::pool::{
    all_distinct, allocation_total, find_asset, lemma_index_of_unique, lemma_total_bounds,
    lemma_total_prefix, lemma_total_push, lemma_total_update, Party, PoolInfo, PoolView, Transfer, MAX_ALLOCATION,
};

verus! {

/// The administrative singleton: who administers the manager, who collects
/// fees, and the template new pools are instantiated from (none until set).
#[derive(Clone, Copy, Debug, PartialEq, Eq)]
pub struct AdminConfig {
    pub admin: u64,
    pub fee_collector: u64,
    pub pool_template: Option<[u8; 32]>,
}

/// Mathematical value of a [`LiquidityManager`].
pub struct ManagerView {
    pub config: Option<AdminConfig>,
    pub pools: Seq<PoolView>,
}

impl ManagerView {
    /// Every pool is well formed and sits at the position its identifier
    /// names, and the allocations add up to at most 100%.
    pub open spec fn wf(self) -> bool {
        &&& forall|i: int|
            0 <= i < self.pools.len() ==> #[trigger] self.pools[i].wf()
                && self.pools[i].pool_address as int == i
        &&& self.total() <= MAX_ALLOCATION
    }

    pub open spec fn total(self) -> int {
        allocation_total(self.pools)
    }

    pub open spec fn is_admin(self, caller: u64) -> bool {
        self.config matches Some(c) && c.admin == caller
    }

    pub open spec fn has_pool(self, pool: u64) -> bool {
        pool < self.pools.len()
    }

    pub open spec fn fee_collector(self) -> u64 {
        self.config.unwrap().fee_collector
    }

    pub open spec fn with_pool(self, pool: u64, p: PoolView) -> ManagerView {
        ManagerView { pools: self.pools.update(pool as int, p), ..self }
    }

    pub open spec fn initialize_result(self, admin: u64, fee_collector: u64) -> (
        ManagerView,
        Result<(), LiquidityError>,
    ) {
        if self.config is Some {
            (self, Err(LiquidityError::AlreadyInitialized))
        } else {
            (
                ManagerView {
                    config: Some(AdminConfig { admin, fee_collector, pool_template: None }),
                    ..self
                },
                Ok(()),
            )
        }
    }

    pub open spec fn set_template_result(self, caller: u64, template: [u8; 32]) -> (
        ManagerView,
        Result<(), LiquidityError>,
    ) {
        if !self.is_admin(caller) {
            (self, Err(LiquidityError::Unauthorized))
        } else {
            (
                ManagerView {
                    config: Some(
                        AdminConfig { pool_template: Some(template), ..self.config.unwrap() },
                    ),
                    ..self
                },
                Ok(()),
            )
        }
    }

    /// Why a pool over `assets` with `pct` cannot be created, checked in this order.
    pub open spec fn create_error(self, caller: u64, assets: Seq<u64>, pct: u32) -> Option<
        LiquidityError,
    > {
        if !self.is_admin(caller) {
            Some(LiquidityError::Unauthorized)
        } else if assets.len() == 0 || !assets.no_duplicates() {
            Some(LiquidityError::InvalidAssetList)
        } else if pct > MAX_ALLOCATION {
            Some(LiquidityError::InvalidAllocation)
        } else if self.total() + pct > MAX_ALLOCATION {
            Some(LiquidityError::AllocationExceeded)
        } else {
            None
        }
    }

    /// The pool that a successful creation appends: the next identifier, an
    /// empty custody, the requested allocation.
    pub open spec fn new_pool(self, assets: Seq<u64>, pct: u32, now: u64) -> PoolView {
        PoolView {
            pool_address: self.pools.len() as u64,
            assets,
            balances: Seq::new(assets.len(), |j: int| 0i128),
            allocation_percentage: pct,
            created_at: now,
        }
    }

    pub open spec fn create_result(self, caller: u64, assets: Seq<u64>, pct: u32, now: u64) -> (
        ManagerView,
        Result<u64, LiquidityError>,
    ) {
        match self.create_error(caller, assets, pct) {
            Some(e) => (self, Err(e)),
            None => (
                ManagerView { pools: self.pools.push(self.new_pool(assets, pct, now)), ..self },
                Ok(self.pools.len() as u64),
            ),
        }
    }

    /// Why `amount` of `asset` cannot be deposited into `pool`, checked in
    /// this order. A deposit that would take the custody past `i128::MAX` is
    /// an invalid amount.
    pub open spec fn deposit_error(self, pool: u64, asset: u64, amount: i128) -> Option<
        LiquidityError,
    > {
        if amount <= 0 {
            Some(LiquidityError::InvalidAmount)
        } else if !self.has_pool(pool) {
            Some(LiquidityError::PoolNotFound)
        } else if !self.pools[pool as int].assets.contains(asset) {
            Some(LiquidityError::AssetNotSupported)
        } else if self.pools[pool as int].custody(asset) + amount > i128::MAX {
            Some(LiquidityError::InvalidAmount)
        } else {
            None
        }
    }

    pub open spec fn deposit_result(self, pool: u64, asset: u64, amount: i128, depositor: u64) -> (
        ManagerView,
        Result<Transfer, LiquidityError>,
    ) {
        match self.deposit_error(pool, asset, amount) {
            Some(e) => (self, Err(e)),
            None => {
                let p = self.pools[pool as int];
                (
                    self.with_pool(pool, p.with_custody(asset, (p.custody(asset) + amount) as i128)),
                    Ok(
                        Transfer {
                            asset,
                            from: Party::Account(depositor),
                            to: Party::Pool(pool),
                            amount,
                        },
                    ),
                )
            },
        }
    }

    /// Why `amount` of `asset` cannot be withdrawn from `pool`, checked in
    /// this order. A pool cannot pay out more than it holds in custody.
    pub open spec fn withdraw_error(self, caller: u64, pool: u64, asset: u64, amount: i128) -> Option<
        LiquidityError,
    > {
        if !self.is_admin(caller) {
            Some(LiquidityError::Unauthorized)
        } else if amount <= 0 {
            Some(LiquidityError::InvalidAmount)
        } else if !self.has_pool(pool) {
            Some(LiquidityError::PoolNotFound)
        } else if self.pools[pool as int].custody(asset) < amount {
            Some(LiquidityError::TransferFailed)
        } else {
            None
        }
    }

    /// On success the custody drops by `amount`; the net amount goes to the
    /// recipient first, then the fee to the fee collector.
    pub open spec fn withdraw_result(
        self,
        caller: u64,
        pool: u64,
        asset: u64,
        amount: i128,
        recipient: u64,
    ) -> (ManagerView, Result<(Transfer, Transfer), LiquidityError>) {
        match self.withdraw_error(caller, pool, asset, amount) {
            Some(e) => (self, Err(e)),
            None => {
                let p = self.pools[pool as int];
                let fee = fee_of(amount as int, WITHDRAWAL_FEE_BASIS_POINTS as int);
                (
                    self.with_pool(pool, p.with_custody(asset, (p.custody(asset) - amount) as i128)),
                    Ok(
                        (
                            Transfer {
                                asset,
                                from: Party::Pool(pool),
                                to: Party::Account(recipient),
                                amount: (amount - fee) as i128,
                            },
                            Transfer {
                                asset,
                                from: Party::Pool(pool),
                                to: Party::Account(self.fee_collector()),
                                amount: fee as i128,
                            },
                        ),
                    ),
                )
            },
        }
    }

    /// Why `pool` cannot be given allocation `pct`, checked in this order.
    pub open spec fn reallocate_error(self, pool: u64, pct: u32) -> Option<LiquidityError> {
        if !self.has_pool(pool) {
            Some(LiquidityError::PoolNotFound)
        } else if self.total() - self.pools[pool as int].allocation_percentage + pct
            > MAX_ALLOCATION {
            Some(LiquidityError::AllocationExceeded)
        } else {
            None
        }
    }

    pub open spec fn reallocate_result(self, pool: u64, pct: u32) -> (
        ManagerView,
        Result<(), LiquidityError>,
    ) {
        match self.reallocate_error(pool, pct) {
            Some(e) => (self, Err(e)),
            None => (
                self.with_pool(pool, self.pools[pool as int].with_allocation(pct)),
                Ok(()),
            ),
        }
    }

    /// Why `pool` cannot be rebalanced to `pct`, checked in this order. The
    /// fee is paid out of the custody of the pool's first backing asset.
    pub open spec fn rebalance_error(
        self,
        caller: u64,
        pool: u64,
        pct: u32,
        moved_amount: i128,
    ) -> Option<LiquidityError> {
        if !self.is_admin(caller) {
            Some(LiquidityError::Unauthorized)
        } else if moved_amount < 0 {
            Some(LiquidityError::InvalidAmount)
        } else if self.reallocate_error(pool, pct) is Some {
            self.reallocate_error(pool, pct)
        } else if self.pools[pool as int].balances[0] < fee_of(
            moved_amount as int,
            REBALANCE_FEE_BASIS_POINTS as int,
        ) {
            Some(LiquidityError::TransferFailed)
        } else {
            None
        }
    }

    pub open spec fn rebalance_result(
        self,
        caller: u64,
        pool: u64,
        pct: u32,
        moved_amount: i128,
    ) -> (ManagerView, Result<Transfer, LiquidityError>) {
        match self.rebalance_error(caller, pool, pct, moved_amount) {
            Some(e) => (self, Err(e)),
            None => {
                let p = self.pools[pool as int];
                let fee = fee_of(moved_amount as int, REBALANCE_FEE_BASIS_POINTS as int);
                (
                    self.with_pool(
                        pool,
                        p.with_allocation(pct).with_balance(0, (p.balances[0] - fee) as i128),
                    ),
                    Ok(
                        Transfer {
                            asset: p.assets[0],
                            from: Party::Pool(pool),
                            to: Party::Account(self.fee_collector()),
                            amount: fee as i128,
                        },
                    ),
                )
            },
        }
    }
}

/// Administration, pool registry and allocation ledger of the liquidity manager.
pub struct LiquidityManager {
    config: Option<AdminConfig>,
    pools: Vec<PoolInfo>,
    allocated: u32,
}

impl View for LiquidityManager {
    type V = ManagerView;

    closed spec fn view(&self) -> ManagerView {
        ManagerView { config: self.config, pools: self.pools@.map_values(|p: PoolInfo| p@) }
    }
}

impl LiquidityManager {
    /// The running total agrees with the pools.
    pub closed spec fn ledger_consistent(&self) -> bool {
        self.allocated as int == allocation_total(self@.pools)
    }

    pub open spec fn wf(&self) -> bool {
        self@.wf() && self.ledger_consistent()
    }

    /// A manager with no configuration and no pools.
    pub fn new() -> (r: LiquidityManager)
        ensures
            r.wf(),
            r@.config is None,
            r@.pools.len() == 0,
    {
        let r = LiquidityManager { config: None, pools: Vec::new(), allocated: 0 };
        assert(r@.pools =~= Seq::<PoolView>::empty());
        r
    }

    /// Stores the administrator and the fee collector; only the first call succeeds.
    pub fn initialize(&mut self, admin: u64, fee_collector: u64) -> (r: Result<(), LiquidityError>)
        requires
            old(self).wf(),
        ensures
            final(self).wf(),
            (final(self)@, r) == old(self)@.initialize_result(admin, fee_collector),
    {
        if self.config.is_some() {
            return Err(LiquidityError::AlreadyInitialized);
        }
        self.config = Some(AdminConfig { admin, fee_collector, pool_template: None });
        Ok(())
    }

    /// The stored configuration, if the manager was initialized.
    pub fn config(&self) -> (r: Option<AdminConfig>)
        ensures
            r == self@.config,
    {
        self.config
    }

    /// Succeeds exactly when `caller` is the configured administrator.
    pub fn require_admin(&self, caller: u64) -> (r: Result<(), LiquidityError>)
        ensures
            r is Ok <==> self@.is_admin(caller),
            r is Err ==> r == Err::<(), LiquidityError>(LiquidityError::Unauthorized),
    {
        match self.config {
            Some(c) => {
                if c.admin == caller {
                    Ok(())
                } else {
                    Err(LiquidityError::Unauthorized)
                }
            },
            None => Err(LiquidityError::Unauthorized),
        }
    }

    /// Replaces the template that new pools are instantiated from; admin only.
    pub fn set_pool_contract_wasm(&mut self, caller: u64, template: [u8; 32]) -> (r: Result<
        (),
        LiquidityError,
    >)
        requires
            old(self).wf(),
        ensures
            final(self).wf(),
            (final(self)@, r) == old(self)@.set_template_result(caller, template),
    {
        match self.config {
            Some(c) => {
                if c.admin != caller {
                    return Err(LiquidityError::Unauthorized);
                }
                self.config = Some(AdminConfig { pool_template: Some(template), ..c });
                Ok(())
            },
            None => Err(LiquidityError::Unauthorized),
        }
    }

    /// Sum of the allocations of all pools, in basis points.
    pub fn total_allocated(&self) -> (r: u32)
        requires
            self.wf(),
        ensures
            r as int == self@.total(),
    {
        self.allocated
    }

    /// Whether `additional` basis points still fit under the 100% ceiling.
    pub fn can_allocate(&self, additional: u32) -> (r: bool)
        requires
            self.wf(),
        ensures
            r == (self@.total() + additional <= MAX_ALLOCATION),
    {
        (self.allocated as u64) + (additional as u64) <= (MAX_ALLOCATION as u64)
    }

    /// Registers a new pool over `assets` with `allocation_percentage`; admin
    /// only. The new pool gets the next identifier and an empty custody.
    pub fn create_liquidity_pool(
        &mut self,
        caller: u64,
        assets: Vec<u64>,
        allocation_percentage: u32,
        now: u64,
    ) -> (r: Result<u64, LiquidityError>)
        requires
            old(self).wf(),
        ensures
            final(self).wf(),
            (final(self)@, r) == old(self)@.create_result(
                caller,
                assets@,
                allocation_percentage,
                now,
            ),
    {
        let ghost before = self@;
        if self.require_admin(caller).is_err() {
            return Err(LiquidityError::Unauthorized);
        }
        if assets.len() == 0 || !all_distinct(&assets) {
            return Err(LiquidityError::InvalidAssetList);
        }
        if allocation_percentage > MAX_ALLOCATION {
            return Err(LiquidityError::InvalidAllocation);
        }
        if !self.can_allocate(allocation_percentage) {
            return Err(LiquidityError::AllocationExceeded);
        }
        let id = self.pools.len() as u64;
        let n = assets.len();
        let balances: Vec<i128> = vec![0i128; n];
        let pool = PoolInfo {
            pool_address: id,
            assets,
            balances,
            allocation_percentage,
            created_at: now,
        };
        let ghost np = pool@;
        assert(np.balances =~= Seq::new(np.assets.len(), |j: int| 0i128));
        assert(before.pools.len() == self.pools@.len());
        assert(np == before.new_pool(assets@, allocation_percentage, now));
        self.pools.push(pool);
        self.allocated = self.allocated + allocation_percentage;
        proof {
            assert(self@.pools =~= before.pools.push(np));
            lemma_total_push(before.pools, np);
            assert forall|i: int| 0 <= i < self@.pools.len() implies #[trigger] self@.pools[i].wf()
                && self@.pools[i].pool_address as int == i by {
                if i < before.pools.len() {
                    assert(self@.pools[i] == before.pools[i]);
                }
            }
        }
        Ok(id)
    }

    /// Identifiers of all pools, in creation order.
    pub fn list_pools(&self) -> (r: Vec<u64>)
        requires
            self.wf(),
        ensures
            r@ == self@.pools.map_values(|p: PoolView| p.pool_address),
    {
        let mut r: Vec<u64> = Vec::new();
        let mut i: usize = 0;
        while i < self.pools.len()
            invariant
                i <= self.pools@.len(),
                r@ == self@.pools.take(i as int).map_values(|p: PoolView| p.pool_address),
            decreases self.pools@.len() - i,
        {
            r.push(self.pools[i].pool_address);
            proof {
                assert(self@.pools.take(i + 1) =~= self@.pools.take(i as int).push(self@.pools[i as int]));
            }
            i = i + 1;
            proof {
                assert(r@ =~= self@.pools.take(i as int).map_values(|p: PoolView| p.pool_address));
            }
        }
        assert(self@.pools.take(i as int) =~= self@.pools);
        r
    }

    /// The record of `pool`, or `PoolNotFound`.
    pub fn get_pool_info(&self, pool: u64) -> (r: Result<PoolInfo, LiquidityError>)
        requires
            self.wf(),
        ensures
            match r {
                Ok(p) => self@.has_pool(pool) && p@ == self@.pools[pool as int],
                Err(e) => !self@.has_pool(pool) && e == LiquidityError::PoolNotFound,
            },
    {
        if pool >= self.pools.len() as u64 {
            return Err(LiquidityError::PoolNotFound);
        }
        let p = &self.pools[pool as usize];
        let assets = p.assets.clone();
        let balances = p.balances.clone();
        assert(assets@ =~= p.assets@);
        assert(balances@ =~= p.balances@);
        Ok(
            PoolInfo {
                pool_address: p.pool_address,
                assets,
                balances,
                allocation_percentage: p.allocation_percentage,
                created_at: p.created_at,
            },
        )
    }

    /// Deposits `amount` of `asset` from `depositor` into the custody of
    /// `pool`. No fee is charged. On success the returned transfer is the one
    /// the host has to carry out.
    pub fn add_liquidity(&mut self, pool: u64, asset: u64, amount: i128, depositor: u64) -> (r:
        Result<Transfer, LiquidityError>)
        requires
            old(self).wf(),
        ensures
            final(self).wf(),
            (final(self)@, r) == old(self)@.deposit_result(pool, asset, amount, depositor),
    {
        let ghost before = self@;
        if amount <= 0 {
            return Err(LiquidityError::InvalidAmount);
        }
        if pool >= self.pools.len() as u64 {
            return Err(LiquidityError::PoolNotFound);
        }
        let i = pool as usize;
        assert(before.pools[i as int].wf());
        let j = match find_asset(&self.pools[i].assets, asset) {
            Some(j) => j,
            None => {
                return Err(LiquidityError::AssetNotSupported);
            },
        };
        proof {
            lemma_index_of_unique(before.pools[i as int].assets, j as int);
        }
        let held = self.pools[i].balances[j];
        if held > i128::MAX - amount {
            return Err(LiquidityError::InvalidAmount);
        }
        self.pools[i].balances[j] = held + amount;
        proof {
            let np = before.pools[i as int].with_custody(asset, (held + amount) as i128);
            assert(self@.pools[i as int].balances =~= np.balances);
            assert(self@.pools =~= before.pools.update(i as int, np));
            lemma_total_update(before.pools, i as int, np);
        }
        Ok(Transfer { asset, from: Party::Account(depositor), to: Party::Pool(pool), amount })
    }

    /// Withdraws `amount` of `asset` from the custody of `pool`; admin only.
    /// The withdrawal fee goes to the fee collector and the rest to
    /// `recipient`: the returned transfers, in that order, form one unit.
    pub fn withdraw_liquidity(
        &mut self,
        caller: u64,
        pool: u64,
        asset: u64,
        amount: i128,
        recipient: u64,
    ) -> (r: Result<(Transfer, Transfer), LiquidityError>)
        requires
            old(self).wf(),
        ensures
            final(self).wf(),
            (final(self)@, r) == old(self)@.withdraw_result(caller, pool, asset, amount, recipient),
    {
        let ghost before = self@;
        let fee_collector = match self.config {
            Some(c) => {
                if c.admin != caller {
                    return Err(LiquidityError::Unauthorized);
                }
                c.fee_collector
            },
            None => {
                return Err(LiquidityError::Unauthorized);
            },
        };
        if amount <= 0 {
            return Err(LiquidityError::InvalidAmount);
        }
        if pool >= self.pools.len() as u64 {
            return Err(LiquidityError::PoolNotFound);
        }
        let i = pool as usize;
        assert(before.pools[i as int].wf());
        let j = match find_asset(&self.pools[i].assets, asset) {
            Some(j) => j,
            None => {
                return Err(LiquidityError::TransferFailed);
            },
        };
        proof {
            lemma_index_of_unique(before.pools[i as int].assets, j as int);
        }
        let held = self.pools[i].balances[j];
        if held < amount {
            return Err(LiquidityError::TransferFailed);
        }
        let fee = match withdrawal_fee(amount) {
            Ok(fee) => fee,
            Err(e) => {
                return Err(e);
            },
        };
        self.pools[i].balances[j] = held - amount;
        proof {
            let np = before.pools[i as int].with_custody(asset, (held - amount) as i128);
            assert(self@.pools[i as int].balances =~= np.balances);
            assert(self@.pools =~= before.pools.update(i as int, np));
            lemma_total_update(before.pools, i as int, np);
        }
        Ok(
            (
                Transfer {
                    asset,
                    from: Party::Pool(pool),
                    to: Party::Account(recipient),
                    amount: amount - fee,
                },
                Transfer {
                    asset,
                    from: Party::Pool(pool),
                    to: Party::Account(fee_collector),
                    amount: fee,
                },
            ),
        )
    }

    /// Gives `pool` the allocation `new_percentage`, keeping the running
    /// total in step; fails when the total would pass 100%.
    pub fn reallocate(&mut self, pool: u64, new_percentage: u32) -> (r: Result<(), LiquidityError>)
        requires
            old(self).wf(),
        ensures
            final(self).wf(),
            (final(self)@, r) == old(self)@.reallocate_result(pool, new_percentage),
    {
        let ghost before = self@;
        if pool >= self.pools.len() as u64 {
            return Err(LiquidityError::PoolNotFound);
        }
        let i = pool as usize;
        let old_percentage = self.pools[i].allocation_percentage;
        proof {
            lemma_total_bounds(before.pools, i as int);
        }
        let rest = self.allocated - old_percentage;
        if (rest as u64) + (new_percentage as u64) > (MAX_ALLOCATION as u64) {
            return Err(LiquidityError::AllocationExceeded);
        }
        self.pools[i].allocation_percentage = new_percentage;
        self.allocated = rest + new_percentage;
        proof {
            let np = before.pools[i as int].with_allocation(new_percentage);
            assert(self@.pools =~= before.pools.update(i as int, np));
            lemma_total_update(before.pools, i as int, np);
            assert(before.pools[i as int].wf());
        }
        Ok(())
    }

    /// Changes the allocation of `pool` to `new_percentage`; admin only. The
    /// rebalance fee on `moved_amount` is paid from the custody of the pool's
    /// first backing asset to the fee collector, by the returned transfer.
    pub fn rebalance(&mut self, caller: u64, pool: u64, new_percentage: u32, moved_amount: i128) -> (r:
        Result<Transfer, LiquidityError>)
        requires
            old(self).wf(),
        ensures
            final(self).wf(),
            (final(self)@, r) == old(self)@.rebalance_result(
                caller,
                pool,
                new_percentage,
                moved_amount,
            ),
    {
        let ghost before = self@;
        let fee_collector = match self.config {
            Some(c) => {
                if c.admin != caller {
                    return Err(LiquidityError::Unauthorized);
                }
                c.fee_collector
            },
            None => {
                return Err(LiquidityError::Unauthorized);
            },
        };
        let fee = match rebalance_fee(moved_amount) {
            Ok(fee) => fee,
            Err(e) => {
                return Err(e);
            },
        };
        if pool >= self.pools.len() as u64 {
            return Err(LiquidityError::PoolNotFound);
        }
        let i = pool as usize;
        assert(before.pools[i as int].wf());
        if !self.can_allocate_instead(i, new_percentage) {
            return Err(LiquidityError::AllocationExceeded);
        }
        let held = self.pools[i].balances[0];
        if held < fee {
            return Err(LiquidityError::TransferFailed);
        }
        let asset = self.pools[i].assets[0];
        match self.reallocate(pool, new_percentage) {
            Ok(()) => {},
            Err(e) => {
                return Err(e);
            },
        }
        let ghost mid = self@;
        assert(mid.pools[i as int].wf());
        self.pools[i].balances[0] = held - fee;
        proof {
            let np = mid.pools[i as int].with_balance(0, (held - fee) as i128);
            assert(self@.pools[i as int].balances =~= np.balances);
            assert(self@.pools =~= mid.pools.update(i as int, np));
            lemma_total_update(mid.pools, i as int, np);
            assert(self@.pools =~= before.pools.update(
                i as int,
                before.pools[i as int].with_allocation(new_percentage).with_balance(0, (held - fee) as i128),
            ));
        }
        Ok(Transfer { asset, from: Party::Pool(pool), to: Party::Account(fee_collector), amount: fee })
    }

    /// Whether the pool at position `i` could hold `new_percentage` in place
    /// of its current allocation without passing 100%.
    fn can_allocate_instead(&self, i: usize, new_percentage: u32) -> (r: bool)
        requires
            self.wf(),
            i < self@.pools.len(),
        ensures
            r == (self@.total() - self@.pools[i as int].allocation_percentage + new_percentage
                <= MAX_ALLOCATION),
    {
        proof {
            lemma_total_bounds(self@.pools, i as int);
        }
        let rest = self.allocated - self.pools[i].allocation_percentage;
        (rest as u64) + (new_percentage as u64) <= (MAX_ALLOCATION as u64)
    }

    /// Keeps `staged`, the state after an operation, when the transfers the
    /// operation asked for all went through; otherwise keeps the current
    /// state and reports `TransferFailed`.
    pub fn settle(&mut self, staged: LiquidityManager, transfers_succeeded: bool) -> (r: Result<
        (),
        LiquidityError,
    >)
        requires
            old(self).wf(),
            staged.wf(),
        ensures
            final(self).wf(),
            transfers_succeeded ==> r is Ok && final(self)@ == staged@,
            !transfers_succeeded ==> r == Err::<(), LiquidityError>(LiquidityError::TransferFailed)
                && final(self)@ == old(self)@,
    {
        if transfers_succeeded {
            *self = staged;
            Ok(())
        } else {
            Err(LiquidityError::TransferFailed)
        }
    }

    /// Rebuilds a manager from a stored configuration and pool records;
    /// `None` when the records do not form a well-formed manager.
    pub fn restore(config: Option<AdminConfig>, pools: Vec<PoolInfo>) -> (r: Option<
        LiquidityManager,
    >)
        ensures
            match r {
                Some(m) => {
                    &&& m.wf()
                    &&& m@.config == config
                    &&& m@.pools == pools@.map_values(|p: PoolInfo| p@)
                },
                None => !(ManagerView {
                    config,
                    pools: pools@.map_values(|p: PoolInfo| p@),
                }).wf(),
            },
    {
        let ghost view = ManagerView { config, pools: pools@.map_values(|p: PoolInfo| p@) };
        let mut total: u32 = 0;
        let mut i: usize = 0;
        while i < pools.len()
            invariant
                i <= pools@.len(),
                view == (ManagerView { config, pools: pools@.map_values(|p: PoolInfo| p@) }),
                total as int == allocation_total(view.pools.take(i as int)),
                total <= MAX_ALLOCATION,
                forall|k: int|
                    0 <= k < i ==> #[trigger] view.pools[k].wf() && view.pools[k].pool_address
                        as int == k,
            decreases pools@.len() - i,
        {
            proof {
                assert(view.pools.take(i + 1) =~= view.pools.take(i as int).push(view.pools[i as int]));
                lemma_total_push(view.pools.take(i as int), view.pools[i as int]);
                assert(view.pools[i as int] == pools@[i as int]@);
            }
            if !pools[i].is_well_formed() || pools[i].pool_address != i as u64 {
                return None;
            }
            let pct = pools[i].allocation_percentage;
            if (total as u64) + (pct as u64) > (MAX_ALLOCATION as u64) {
                proof {
                    lemma_total_prefix(view.pools, i + 1);
                }
                return None;
            }
            total = total + pct;
            i = i + 1;
        }
        assert(view.pools.take(i as int) =~= view.pools);
        Some(LiquidityManager { config, pools, allocated: total })
    }

    /// Hands back the configuration and the pool records, in creation order.
    pub fn into_parts(self) -> (r: (Option<AdminConfig>, Vec<PoolInfo>))
        ensures
            r.0 == self@.config,
            r.1@.map_values(|p: PoolInfo| p@) == self@.pools,
    {
        (self.config, self.pools)
    }
}

} // verus!
