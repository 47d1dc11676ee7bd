//! Gross, tax and net amounts of a payment, and the date of the next one.
use vstd::prelude::*;

use crate::payroll::PaymentFrequency;

verus! {

/// Quotient of `a` by `d`, rounded toward zero as Rust's `/` rounds.
pub open spec fn div_toward_zero(a: int, d: int) -> int {
    if a >= 0 {
        a / d
    } else {
        -((-a) / d)
    }
}

/// Number of pay periods in a year.
pub open spec fn periods_per_year(frequency: PaymentFrequency) -> int {
    match frequency {
        PaymentFrequency::Weekly => 52,
        PaymentFrequency::BiWeekly => 26,
        PaymentFrequency::Monthly => 12,
        PaymentFrequency::Quarterly => 4,
        PaymentFrequency::Annually => 1,
    }
}

/// Length of a pay period in days (a month counts as 30 days, a quarter as
/// 90, a year as 365).
pub open spec fn period_days(frequency: PaymentFrequency) -> int {
    match frequency {
        PaymentFrequency::Weekly => 7,
        PaymentFrequency::BiWeekly => 14,
        PaymentFrequency::Monthly => 30,
        PaymentFrequency::Quarterly => 90,
        PaymentFrequency::Annually => 365,
    }
}

pub const SECONDS_PER_DAY: u64 = 86400;

/// Share of `annual_salary` paid each period, rounded toward zero.
pub fn calculate_gross_payment(frequency: &PaymentFrequency, annual_salary: i128) -> (r: i128)
    ensures
        r as int == div_toward_zero(annual_salary as int, periods_per_year(*frequency)),
{
    match frequency {
        PaymentFrequency::Weekly => annual_salary / 52,
        PaymentFrequency::BiWeekly => annual_salary / 26,
        PaymentFrequency::Monthly => annual_salary / 12,
        PaymentFrequency::Quarterly => annual_salary / 4,
        PaymentFrequency::Annually => annual_salary,
    }
}

/// Tax on `gross_amount` at `tax_rate` basis points, rounded toward zero.
pub fn calculate_tax_amount(gross_amount: i128, tax_rate: i128) -> (r: i128)
    requires
        i128::MIN <= gross_amount * tax_rate <= i128::MAX,
    ensures
        r as int == div_toward_zero(gross_amount * tax_rate, 10000),
{
    (gross_amount * tax_rate) / 10000
}

/// What is left of `gross_amount` once `tax_amount` is withheld.
pub fn calculate_net_amount(gross_amount: i128, tax_amount: i128) -> (r: i128)
    requires
        i128::MIN <= gross_amount - tax_amount <= i128::MAX,
    ensures
        r == gross_amount - tax_amount,
{
    gross_amount - tax_amount
}

/// The date one pay period after `current_date`.
pub fn calculate_next_payment_date(frequency: &PaymentFrequency, current_date: u64) -> (r: u64)
    requires
        current_date + period_days(*frequency) * SECONDS_PER_DAY <= u64::MAX,
    ensures
        r == current_date + period_days(*frequency) * SECONDS_PER_DAY,
{
    match frequency {
        PaymentFrequency::Weekly => current_date + 7 * SECONDS_PER_DAY,
        PaymentFrequency::BiWeekly => current_date + 14 * SECONDS_PER_DAY,
        PaymentFrequency::Monthly => current_date + 30 * SECONDS_PER_DAY,
        PaymentFrequency::Quarterly => current_date + 90 * SECONDS_PER_DAY,
        PaymentFrequency::Annually => current_date + 365 * SECONDS_PER_DAY,
    }
}

} // verus!
