//! Pooled-liquidity management: pool registry, allocation ledger, fee
//! calculator and the liquidity operations that combine them, together with
//! the payroll arithmetic and validation helpers.
use vstd::prelude::*;

pub mod error;
pub mod fees;
pub mod laws;
pub mod manager;
pub mod payroll;
pub mod pool;
