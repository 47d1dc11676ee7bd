use blockbatch::error::LiquidityError;
use blockbatch::fees::{rebalance_fee, withdrawal_fee};
use blockbatch::manager::{AdminConfig, LiquidityManager};
use blockbatch::pool::{Party, PoolInfo, Transfer};

const ADMIN: u64 = 1;
const FEE_COLLECTOR: u64 = 2;
const DEPOSITOR: u64 = 3;
const RECIPIENT: u64 = 4;
const OUTSIDER: u64 = 9;
const TOKEN_A: u64 = 100;
const TOKEN_B: u64 = 200;
const POOL_WASM_HASH: [u8; 32] = [7u8; 32];

fn setup_contract() -> LiquidityManager {
    let mut m = LiquidityManager::new();
    assert_eq!(m.initialize(ADMIN, FEE_COLLECTOR), Ok(()));
    m
}

fn with_pool(allocation: u32) -> (LiquidityManager, u64) {
    let mut m = setup_contract();
    m.set_pool_contract_wasm(ADMIN, POOL_WASM_HASH).unwrap();
    let pool = m.create_liquidity_pool(ADMIN, vec![TOKEN_A], allocation, 0).unwrap();
    (m, pool)
}

fn custody(m: &LiquidityManager, pool: u64, index: usize) -> i128 {
    m.get_pool_info(pool).unwrap().balances[index]
}

#[test]
fn test_initialization() {
    let mut m = setup_contract();
    // A second initialization is refused.
    assert_eq!(m.initialize(ADMIN, FEE_COLLECTOR), Err(LiquidityError::AlreadyInitialized));
}

#[test]
fn test_set_pool_contract_wasm() {
    let mut m = setup_contract();
    assert_eq!(m.set_pool_contract_wasm(ADMIN, POOL_WASM_HASH), Ok(()));
    assert_eq!(m.config().unwrap().pool_template, Some(POOL_WASM_HASH));
}

#[test]
fn test_set_pool_contract_wasm_unauthorized() {
    let mut m = setup_contract();
    assert_eq!(
        m.set_pool_contract_wasm(OUTSIDER, POOL_WASM_HASH),
        Err(LiquidityError::Unauthorized)
    );
    assert_eq!(m.config().unwrap().pool_template, None);
}

#[test]
fn test_create_pool() {
    let mut m = setup_contract();
    m.set_pool_contract_wasm(ADMIN, POOL_WASM_HASH).unwrap();

    let token_addresses = vec![TOKEN_A];
    let allocation_percentage = 5000;
    let pool_address = m.create_liquidity_pool(ADMIN, token_addresses, allocation_percentage, 0).unwrap();

    let pools = m.list_pools();
    assert_eq!(pools.len(), 1);
    assert_eq!(pools[0], pool_address);

    let pool_info = m.get_pool_info(pool_address).unwrap();
    assert_eq!(pool_info.pool_address, pool_address);
    assert_eq!(pool_info.assets.len(), 1);
    assert_eq!(pool_info.allocation_percentage, allocation_percentage);
}

#[test]
fn test_add_liquidity_to_pool() {
    let (committed, pool) = with_pool(5000);
    let (mut staged, _) = with_pool(5000);
    let mut committed = committed;

    // The depositor holds 10000 of the token and approves 5000 of it.
    let mut depositor_balance: i128 = 10000;
    let mut pool_token_balance: i128 = 0;

    let transfer = staged.add_liquidity(pool, TOKEN_A, 5000, DEPOSITOR).unwrap();
    assert_eq!(
        transfer,
        Transfer { asset: TOKEN_A, from: Party::Account(DEPOSITOR), to: Party::Pool(pool), amount: 5000 }
    );
    depositor_balance -= transfer.amount;
    pool_token_balance += transfer.amount;
    assert_eq!(committed.settle(staged, true), Ok(()));

    assert_eq!(pool_token_balance, 5000);
    assert_eq!(depositor_balance, 5000);
    assert_eq!(custody(&committed, pool, 0), 5000);
}

#[test]
fn scenario_create_one_pool() {
    let mut m = setup_contract();
    let id = m.create_liquidity_pool(ADMIN, vec![TOKEN_A], 5000, 42).unwrap();
    assert_eq!(m.list_pools(), vec![id]);
    let info = m.get_pool_info(id).unwrap();
    assert_eq!(info.allocation_percentage, 5000);
    assert_eq!(info.assets, vec![TOKEN_A]);
    assert_eq!(info.balances, vec![0]);
    assert_eq!(info.created_at, 42);
    assert_eq!(m.total_allocated(), 5000);
}

#[test]
fn scenario_deposit_raises_custody_by_amount() {
    let (mut m, pool) = with_pool(5000);
    let before = custody(&m, pool, 0);
    m.add_liquidity(pool, TOKEN_A, 5000, DEPOSITOR).unwrap();
    assert_eq!(custody(&m, pool, 0) - before, 5000);
}

#[test]
fn scenario_withdraw_splits_fee() {
    let (mut m, pool) = with_pool(5000);
    m.add_liquidity(pool, TOKEN_A, 10000, DEPOSITOR).unwrap();
    let (payout, fee) = m.withdraw_liquidity(ADMIN, pool, TOKEN_A, 10000, RECIPIENT).unwrap();
    assert_eq!(
        payout,
        Transfer { asset: TOKEN_A, from: Party::Pool(pool), to: Party::Account(RECIPIENT), amount: 9990 }
    );
    assert_eq!(
        fee,
        Transfer { asset: TOKEN_A, from: Party::Pool(pool), to: Party::Account(FEE_COLLECTOR), amount: 10 }
    );
    assert_eq!(custody(&m, pool, 0), 0);
}

#[test]
fn scenario_non_admin_cannot_create() {
    let mut m = setup_contract();
    assert_eq!(
        m.create_liquidity_pool(OUTSIDER, vec![TOKEN_A], 1000, 0),
        Err(LiquidityError::Unauthorized)
    );
    assert_eq!(m.list_pools().len(), 0);
}

#[test]
fn scenario_empty_asset_list() {
    let mut m = setup_contract();
    assert_eq!(m.create_liquidity_pool(ADMIN, vec![], 1000, 0), Err(LiquidityError::InvalidAssetList));
    assert_eq!(m.list_pools().len(), 0);
    assert_eq!(m.total_allocated(), 0);
}

#[test]
fn duplicate_assets_are_refused() {
    let mut m = setup_contract();
    assert_eq!(
        m.create_liquidity_pool(ADMIN, vec![TOKEN_A, TOKEN_B, TOKEN_A], 1000, 0),
        Err(LiquidityError::InvalidAssetList)
    );
}

#[test]
fn allocation_over_full_is_invalid() {
    let mut m = setup_contract();
    assert_eq!(
        m.create_liquidity_pool(ADMIN, vec![TOKEN_A], 10001, 0),
        Err(LiquidityError::InvalidAllocation)
    );
}

#[test]
fn full_allocation_only_for_the_first_pool() {
    let mut m = setup_contract();
    assert!(m.create_liquidity_pool(ADMIN, vec![TOKEN_A], 10000, 0).is_ok());
    assert_eq!(
        m.create_liquidity_pool(ADMIN, vec![TOKEN_B], 1, 0),
        Err(LiquidityError::AllocationExceeded)
    );
    // A pool with no allocation still fits.
    assert!(m.create_liquidity_pool(ADMIN, vec![TOKEN_B], 0, 0).is_ok());

    let mut other = setup_contract();
    other.create_liquidity_pool(ADMIN, vec![TOKEN_A], 1, 0).unwrap();
    assert_eq!(
        other.create_liquidity_pool(ADMIN, vec![TOKEN_B], 10000, 0),
        Err(LiquidityError::AllocationExceeded)
    );
}

#[test]
fn allocation_total_stays_within_ceiling() {
    let mut m = setup_contract();
    let a = m.create_liquidity_pool(ADMIN, vec![TOKEN_A], 4000, 0).unwrap();
    let b = m.create_liquidity_pool(ADMIN, vec![TOKEN_B], 6000, 0).unwrap();
    assert_eq!(m.total_allocated(), 10000);
    assert!(!m.can_allocate(1));
    assert_eq!(m.rebalance(ADMIN, a, 4001, 0), Err(LiquidityError::AllocationExceeded));
    assert!(m.rebalance(ADMIN, a, 1000, 0).is_ok());
    assert!(m.rebalance(ADMIN, b, 9000, 0).is_ok());
    assert_eq!(m.total_allocated(), 10000);
    assert_eq!(m.create_liquidity_pool(ADMIN, vec![TOKEN_A], 1, 0), Err(LiquidityError::AllocationExceeded));
    assert!(m.rebalance(ADMIN, b, 0, 0).is_ok());
    assert_eq!(m.total_allocated(), 1000);
    assert!(m.can_allocate(9000));
    assert!(!m.can_allocate(9001));
}

#[test]
fn fee_split_conserves_amount() {
    for amount in [0i128, 1, 999, 1000, 10000, 123_456_789, i128::MAX] {
        let fee = withdrawal_fee(amount).unwrap();
        assert_eq!(fee + (amount - fee), amount);
        assert!(fee >= 0 && fee <= amount);
    }
}

#[test]
fn fee_exact_values() {
    assert_eq!(withdrawal_fee(10000), Ok(10));
    assert_eq!(withdrawal_fee(999), Ok(0));
    assert_eq!(withdrawal_fee(1999), Ok(1));
    assert_eq!(withdrawal_fee(i128::MAX), Ok(i128::MAX / 1000));
    assert_eq!(rebalance_fee(10000), Ok(5));
    assert_eq!(rebalance_fee(1999), Ok(0));
    assert_eq!(rebalance_fee(i128::MAX), Ok(i128::MAX / 2000));
    assert_eq!(withdrawal_fee(-1), Err(LiquidityError::InvalidAmount));
    assert_eq!(rebalance_fee(-1), Err(LiquidityError::InvalidAmount));
}

#[test]
fn second_initialize_keeps_config() {
    let mut m = setup_contract();
    assert_eq!(m.initialize(OUTSIDER, OUTSIDER), Err(LiquidityError::AlreadyInitialized));
    assert_eq!(
        m.config(),
        Some(AdminConfig { admin: ADMIN, fee_collector: FEE_COLLECTOR, pool_template: None })
    );
}

#[test]
fn uninitialized_manager_refuses_admin_calls() {
    let mut m = LiquidityManager::new();
    assert_eq!(m.require_admin(ADMIN), Err(LiquidityError::Unauthorized));
    assert_eq!(m.create_liquidity_pool(ADMIN, vec![TOKEN_A], 1, 0), Err(LiquidityError::Unauthorized));
    assert_eq!(m.set_pool_contract_wasm(ADMIN, POOL_WASM_HASH), Err(LiquidityError::Unauthorized));
}

#[test]
fn deposit_errors() {
    let (mut m, pool) = with_pool(100);
    assert_eq!(m.add_liquidity(pool, TOKEN_A, 0, DEPOSITOR), Err(LiquidityError::InvalidAmount));
    assert_eq!(m.add_liquidity(pool, TOKEN_A, -5, DEPOSITOR), Err(LiquidityError::InvalidAmount));
    assert_eq!(m.add_liquidity(pool + 1, TOKEN_A, 5, DEPOSITOR), Err(LiquidityError::PoolNotFound));
    assert_eq!(m.add_liquidity(pool, TOKEN_B, 5, DEPOSITOR), Err(LiquidityError::AssetNotSupported));
    m.add_liquidity(pool, TOKEN_A, i128::MAX, DEPOSITOR).unwrap();
    assert_eq!(m.add_liquidity(pool, TOKEN_A, 1, DEPOSITOR), Err(LiquidityError::InvalidAmount));
    assert_eq!(custody(&m, pool, 0), i128::MAX);
}

#[test]
fn withdrawal_errors() {
    let (mut m, pool) = with_pool(100);
    m.add_liquidity(pool, TOKEN_A, 500, DEPOSITOR).unwrap();
    assert_eq!(m.withdraw_liquidity(OUTSIDER, pool, TOKEN_A, 5, RECIPIENT), Err(LiquidityError::Unauthorized));
    assert_eq!(m.withdraw_liquidity(ADMIN, pool, TOKEN_A, 0, RECIPIENT), Err(LiquidityError::InvalidAmount));
    assert_eq!(m.withdraw_liquidity(ADMIN, pool + 1, TOKEN_A, 5, RECIPIENT), Err(LiquidityError::PoolNotFound));
    assert_eq!(m.withdraw_liquidity(ADMIN, pool, TOKEN_A, 501, RECIPIENT), Err(LiquidityError::TransferFailed));
    assert_eq!(m.withdraw_liquidity(ADMIN, pool, TOKEN_B, 1, RECIPIENT), Err(LiquidityError::TransferFailed));
    assert_eq!(custody(&m, pool, 0), 500);
    let (payout, fee) = m.withdraw_liquidity(ADMIN, pool, TOKEN_A, 500, RECIPIENT).unwrap();
    assert_eq!((payout.amount, fee.amount), (500, 0));
}

#[test]
fn rebalance_charges_fee_from_first_asset() {
    let mut m = setup_contract();
    let pool = m.create_liquidity_pool(ADMIN, vec![TOKEN_B, TOKEN_A], 2000, 0).unwrap();
    m.add_liquidity(pool, TOKEN_B, 100, DEPOSITOR).unwrap();
    let t = m.rebalance(ADMIN, pool, 3000, 100_000).unwrap();
    assert_eq!(
        t,
        Transfer { asset: TOKEN_B, from: Party::Pool(pool), to: Party::Account(FEE_COLLECTOR), amount: 50 }
    );
    assert_eq!(custody(&m, pool, 0), 50);
    assert_eq!(m.get_pool_info(pool).unwrap().allocation_percentage, 3000);
    assert_eq!(m.total_allocated(), 3000);
}

#[test]
fn rebalance_errors_change_nothing() {
    let (mut m, pool) = with_pool(2000);
    assert_eq!(m.rebalance(OUTSIDER, pool, 100, 0), Err(LiquidityError::Unauthorized));
    assert_eq!(m.rebalance(ADMIN, pool, 100, -1), Err(LiquidityError::InvalidAmount));
    assert_eq!(m.rebalance(ADMIN, pool + 3, 100, 0), Err(LiquidityError::PoolNotFound));
    assert_eq!(m.rebalance(ADMIN, pool, 10001, 0), Err(LiquidityError::AllocationExceeded));
    assert_eq!(m.rebalance(ADMIN, pool, 100, 10000), Err(LiquidityError::TransferFailed));
    assert_eq!(m.get_pool_info(pool).unwrap().allocation_percentage, 2000);
    assert_eq!(m.total_allocated(), 2000);
}

#[test]
fn reallocate_updates_total() {
    let (mut m, pool) = with_pool(2000);
    assert_eq!(m.reallocate(pool, 0), Ok(()));
    assert_eq!(m.total_allocated(), 0);
    assert_eq!(m.reallocate(pool, 10000), Ok(()));
    assert_eq!(m.reallocate(pool + 1, 1), Err(LiquidityError::PoolNotFound));
    assert_eq!(m.reallocate(pool, 10001), Err(LiquidityError::AllocationExceeded));
}

#[test]
fn get_pool_info_unknown_pool() {
    let m = setup_contract();
    assert!(matches!(m.get_pool_info(0), Err(LiquidityError::PoolNotFound)));
}

#[test]
fn failed_transfer_keeps_committed_state() {
    let (mut committed, pool) = with_pool(5000);
    let (mut staged, _) = with_pool(5000);
    staged.add_liquidity(pool, TOKEN_A, 700, DEPOSITOR).unwrap();
    assert_eq!(committed.settle(staged, false), Err(LiquidityError::TransferFailed));
    assert_eq!(custody(&committed, pool, 0), 0);
}

#[test]
fn restore_round_trip() {
    let (mut m, pool) = with_pool(2500);
    m.add_liquidity(pool, TOKEN_A, 40, DEPOSITOR).unwrap();
    let (config, pools) = m.into_parts();
    let back = LiquidityManager::restore(config, pools).unwrap();
    assert_eq!(back.total_allocated(), 2500);
    assert_eq!(custody(&back, pool, 0), 40);
    assert_eq!(back.config(), config);
}

#[test]
fn restore_rejects_inconsistent_records() {
    let pool = |address: u64, allocation: u32| PoolInfo {
        pool_address: address,
        assets: vec![TOKEN_A],
        balances: vec![0],
        allocation_percentage: allocation,
        created_at: 0,
    };
    assert!(LiquidityManager::restore(None, vec![pool(0, 6000), pool(1, 4000)]).is_some());
    assert!(LiquidityManager::restore(None, vec![pool(0, 6000), pool(1, 4001)]).is_none());
    assert!(LiquidityManager::restore(None, vec![pool(1, 10)]).is_none());
    let mut negative = pool(0, 10);
    negative.balances = vec![-1];
    assert!(LiquidityManager::restore(None, vec![negative]).is_none());
}

#[test]
fn pools_listed_in_creation_order() {
    let mut m = setup_contract();
    let a = m.create_liquidity_pool(ADMIN, vec![TOKEN_A], 100, 0).unwrap();
    let b = m.create_liquidity_pool(ADMIN, vec![TOKEN_B], 200, 0).unwrap();
    let c = m.create_liquidity_pool(ADMIN, vec![TOKEN_A, TOKEN_B], 300, 0).unwrap();
    assert_eq!((a, b, c), (0, 1, 2));
    assert_eq!(m.list_pools(), vec![0, 1, 2]);
    assert_eq!(m.total_allocated(), 600);
    assert_eq!(m.require_admin(ADMIN), Ok(()));
    assert_eq!(m.require_admin(OUTSIDER), Err(LiquidityError::Unauthorized));
}
