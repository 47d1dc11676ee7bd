//! Checks on payments that report the reason of a refusal.
use vstd::prelude::*;

use crate::payroll::PayrollError;

verus! {

/// A payment scheduled for `next_payment_date` is due once `current_time`
/// has reached it.
pub fn validate_payment_due(current_time: u64, next_payment_date: u64) -> (r: Result<(), PayrollError>)
    ensures
        r is Ok <==> current_time >= next_payment_date,
        r is Err ==> r == Err::<(), PayrollError>(PayrollError::PaymentNotDue),
{
    if current_time < next_payment_date {
        return Err(PayrollError::PaymentNotDue);
    }
    Ok(())
}

/// The contract's balance must cover the payment.
pub fn validate_sufficient_balance(contract_balance: i128, payment_amount: i128) -> (r: Result<
    (),
    PayrollError,
>)
    ensures
        r is Ok <==> contract_balance >= payment_amount,
        r is Err ==> r == Err::<(), PayrollError>(PayrollError::InsufficientBalance),
{
    if contract_balance < payment_amount {
        return Err(PayrollError::InsufficientBalance);
    }
    Ok(())
}

/// A tax rate lies between 0% and 100%, in basis points.
pub fn validate_tax_rate(tax_rate: i128) -> (r: Result<(), PayrollError>)
    ensures
        r is Ok <==> 0 <= tax_rate <= 10000,
        r is Err ==> r == Err::<(), PayrollError>(PayrollError::InvalidTaxRate),
{
    if tax_rate < 0 || tax_rate > 10000 {
        return Err(PayrollError::InvalidTaxRate);
    }
    Ok(())
}

/// A payment amount must be positive.
pub fn validate_payment_amount(amount: i128) -> (r: Result<(), PayrollError>)
    ensures
        r is Ok <==> amount > 0,
        r is Err ==> r == Err::<(), PayrollError>(PayrollError::InvalidAmount),
{
    if amount <= 0 {
        return Err(PayrollError::InvalidAmount);
    }
    Ok(())
}

} // verus!
