//! Payroll arithmetic and validation helpers used by the payroll contract
//! that draws on the same asset-transfer primitive as the liquidity manager.
use vstd::prelude::*;

pub mod calculations;
pub mod payment_utils;
pub mod payment_validation;

verus! {

/// Lifecycle state of a payroll contract.
#[derive(Clone, Copy, Debug, PartialEq, Eq, Structural)]
pub enum ContractStatus {
    Active,
    Paused,
    Terminated,
    PendingApproval,
}

/// How often employees are paid.
#[derive(Clone, Copy, Debug, PartialEq, Eq, Structural)]
pub enum PaymentFrequency {
    Weekly,
    BiWeekly,
    Monthly,
    Quarterly,
    Annually,
}

/// When payments start, when the next one is due and, optionally, when they end
/// (Unix timestamps in seconds).
#[derive(Clone, Copy, Debug, PartialEq, Eq, Structural)]
pub struct TimeSchedule {
    pub frequency: PaymentFrequency,
    pub start_date: u64,
    pub next_payment_date: u64,
    pub end_date: Option<u64>,
}

/// State of a single payment.
#[derive(Clone, Copy, Debug, PartialEq, Eq, Structural)]
pub enum PaymentStatus {
    Pending,
    Completed,
    Failed,
    Cancelled,
}

/// The ways a payroll operation can fail.
#[derive(Clone, Copy, Debug, PartialEq, Eq, Structural)]
pub enum PayrollError {
    Unauthorized,
    InvalidAmount,
    InvalidStatus,
    InsufficientBalance,
    EmployeeNotFound,
    EmployeeAlreadyExists,
    InvalidPaymentSchedule,
    PaymentNotDue,
    InvalidTaxRate,
    ContractNotActive,
    InvalidEmployee,
    PaymentFailed,
    NotInitialized,
    InvalidSigner,
    DuplicatePayment,
}

} // verus!
