use vstd::prelude::*;

verus! {

/// The ways an operation of the liquidity manager can fail.
#[derive(Clone, Copy, Debug, PartialEq, Eq, Structural)]
pub enum LiquidityError {
    AlreadyInitialized,
    Unauthorized,
    InvalidAmount,
    InvalidAllocation,
    AllocationExceeded,
    InvalidAssetList,
    AssetNotSupported,
    PoolNotFound,
    TransferFailed,
}

} // verus!
