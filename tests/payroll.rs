use blockbatch::payroll::calculations::{
    calculate_gross_payment, calculate_net_amount, calculate_next_payment_date,
    calculate_tax_amount,
};
use blockbatch::payroll::payment_utils;
use blockbatch::payroll::payment_validation::{
    validate_payment_amount, validate_payment_due, validate_sufficient_balance, validate_tax_rate,
};
use blockbatch::payroll::{PaymentFrequency, PayrollError};

#[test]
fn test_calculate_gross_payment() {
    let annual_salary = 120_000_0000000; // 120,000 with 7 decimals

    assert_eq!(calculate_gross_payment(&PaymentFrequency::Monthly, annual_salary), 10_000_0000000);
    assert_eq!(calculate_gross_payment(&PaymentFrequency::Weekly, annual_salary), annual_salary / 52);
    assert_eq!(calculate_gross_payment(&PaymentFrequency::Annually, annual_salary), annual_salary);
}

#[test]
fn test_calculate_tax_amount() {
    let gross_amount = 10_000_0000000; // 10,000 with 7 decimals
    let tax_rate = 2500; // 25% in basis points

    let expected_tax = 2_500_0000000; // 25% of 10,000
    assert_eq!(calculate_tax_amount(gross_amount, tax_rate), expected_tax);
}

#[test]
fn test_calculate_net_amount() {
    let gross_amount = 10_000_0000000;
    let tax_amount = 2_500_0000000;
    let expected_net = 7_500_0000000;

    assert_eq!(calculate_net_amount(gross_amount, tax_amount), expected_net);
}

#[test]
fn payment_utils_test_validate_payment_amount() {
    assert!(payment_utils::validate_payment_amount(1000));
    assert!(!payment_utils::validate_payment_amount(0));
    assert!(!payment_utils::validate_payment_amount(-100));
}

#[test]
fn payment_utils_test_validate_tax_rate() {
    assert!(payment_utils::validate_tax_rate(0)); // 0%
    assert!(payment_utils::validate_tax_rate(2500)); // 25%
    assert!(payment_utils::validate_tax_rate(10000)); // 100%
    assert!(!payment_utils::validate_tax_rate(-100)); // Invalid
    assert!(!payment_utils::validate_tax_rate(15000)); // Over 100%
}

#[test]
fn test_validate_payment_due() {
    let current_time = 0u64;

    // Payment due (current time)
    assert!(validate_payment_due(current_time, current_time).is_ok());

    // Payment not due (future date)
    assert_eq!(
        validate_payment_due(current_time, current_time + 1000),
        Err(PayrollError::PaymentNotDue)
    );
}

#[test]
fn test_validate_sufficient_balance() {
    // Sufficient balance
    assert!(validate_sufficient_balance(1000, 500).is_ok());

    // Insufficient balance
    assert_eq!(
        validate_sufficient_balance(500, 1000),
        Err(PayrollError::InsufficientBalance)
    );

    // Exact balance
    assert!(validate_sufficient_balance(1000, 1000).is_ok());
}

#[test]
fn payment_validation_test_validate_tax_rate() {
    // Valid tax rates
    assert!(validate_tax_rate(0).is_ok()); // 0%
    assert!(validate_tax_rate(2500).is_ok()); // 25%
    assert!(validate_tax_rate(10000).is_ok()); // 100%

    // Invalid tax rates
    assert_eq!(validate_tax_rate(-100), Err(PayrollError::InvalidTaxRate));
    assert_eq!(validate_tax_rate(15000), Err(PayrollError::InvalidTaxRate));
}

#[test]
fn payment_validation_test_validate_payment_amount() {
    // Valid amounts
    assert!(validate_payment_amount(1).is_ok());
    assert!(validate_payment_amount(1000000).is_ok());

    // Invalid amounts
    assert_eq!(validate_payment_amount(0), Err(PayrollError::InvalidAmount));
    assert_eq!(validate_payment_amount(-100), Err(PayrollError::InvalidAmount));
}

#[test]
fn gross_payment_for_every_frequency() {
    let salary: i128 = 5_200_000;
    assert_eq!(calculate_gross_payment(&PaymentFrequency::BiWeekly, salary), 200_000);
    assert_eq!(calculate_gross_payment(&PaymentFrequency::Quarterly, salary), 1_300_000);
    // Rust's division rounds toward zero, also for a negative salary.
    assert_eq!(calculate_gross_payment(&PaymentFrequency::Monthly, -25), -2);
}

#[test]
fn tax_amount_rounds_toward_zero() {
    assert_eq!(calculate_tax_amount(3, 2500), 0);
    assert_eq!(calculate_tax_amount(-3, 5000), -1);
    assert_eq!(calculate_tax_amount(10_000, 10_000), 10_000);
}

#[test]
fn next_payment_date_per_frequency() {
    let day = 86_400u64;
    assert_eq!(calculate_next_payment_date(&PaymentFrequency::Weekly, 1000), 1000 + 7 * day);
    assert_eq!(calculate_next_payment_date(&PaymentFrequency::BiWeekly, 0), 14 * day);
    assert_eq!(calculate_next_payment_date(&PaymentFrequency::Monthly, 0), 30 * day);
    assert_eq!(calculate_next_payment_date(&PaymentFrequency::Quarterly, 0), 90 * day);
    assert_eq!(calculate_next_payment_date(&PaymentFrequency::Annually, 5), 5 + 365 * day);
}
