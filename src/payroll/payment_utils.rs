//! Yes-or-no checks on payment inputs.
use vstd::prelude::*;

verus! {

/// A payment amount must be positive.
pub fn validate_payment_amount(amount: i128) -> (r: bool)
    ensures
        r == (amount > 0),
{
    amount > 0
}

/// A tax rate lies between 0% and 100%, in basis points.
pub fn validate_tax_rate(tax_rate: i128) -> (r: bool)
    ensures
        r == (0 <= tax_rate <= 10000),
{
    tax_rate >= 0 && tax_rate <= 10000
}

} // verus!
