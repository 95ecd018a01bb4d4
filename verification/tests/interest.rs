use budget_balancer::services::interest_calculator::{
    apply_payment_with_interest, calculate_effective_annual_rate, calculate_monthly_interest,
    calculate_total_interest,
};

fn micros(units: f64) -> i64 {
    (units * 1_000_000.0).round() as i64
}

fn units(micros: i128) -> f64 {
    micros as f64 / 1_000_000.0
}

#[test]
fn test_monthly_interest_calculation() {
    let balance = micros(1000.0);
    let annual_rate = micros(18.0); // 18% APR
    let monthly_interest = calculate_monthly_interest(balance, annual_rate);

    // 18% / 12 = 1.5% per month
    // 1000 * 0.015 = 15.0
    assert!((units(monthly_interest) - 15.0).abs() < 0.01);
    assert_eq!(monthly_interest, 15_000_000);
}

#[test]
fn test_monthly_interest_zero_balance() {
    assert_eq!(units(calculate_monthly_interest(micros(0.0), micros(18.0))), 0.0);
}

#[test]
fn test_monthly_interest_zero_rate() {
    assert_eq!(units(calculate_monthly_interest(micros(1000.0), micros(0.0))), 0.0);
}

#[test]
fn test_apply_payment_with_interest() {
    let balance = micros(1000.0);
    let annual_rate = micros(18.0);
    let payment = micros(100.0);

    let new_balance = apply_payment_with_interest(balance, annual_rate, payment);

    // Balance after interest: 1000 + 15 = 1015
    // Balance after payment: 1015 - 100 = 915
    assert!((units(new_balance) - 915.0).abs() < 0.01);
    assert_eq!(new_balance, 915_000_000);
}

#[test]
fn test_apply_payment_exceeding_balance() {
    let balance = micros(100.0);
    let annual_rate = micros(15.0);
    let payment = micros(200.0);

    let new_balance = apply_payment_with_interest(balance, annual_rate, payment);

    // Should not go negative
    assert_eq!(units(new_balance), 0.0);
}

#[test]
fn test_total_interest_calculation() {
    let initial = micros(1000.0);
    let final_balance = micros(0.0);
    let total_payments = micros(1150.0);

    let total_interest = calculate_total_interest(initial, final_balance, total_payments);

    // Paid 1150 to eliminate 1000 debt = 150 in interest
    assert!((units(total_interest) - 150.0).abs() < 0.01);
    assert_eq!(total_interest, 150_000_000);
}

#[test]
fn test_effective_annual_rate() {
    let monthly_rate = micros(1.5); // 1.5% per month
    let ear = calculate_effective_annual_rate(monthly_rate);

    // EAR should be slightly higher than 1.5 * 12 = 18% due to compounding
    assert!(units(ear) > 18.0);
    assert!(units(ear) < 20.0);
    // 1.015 ^ 12 = 1.19561817..., each month's product rounded toward zero
    assert_eq!(ear, 19_561_811);
}

#[test]
fn monthly_interest_is_rounded_toward_zero() {
    // 1000 * 10 / 1200 = 8.333333...
    assert_eq!(calculate_monthly_interest(micros(1000.0), micros(10.0)), 8_333_333);
    // one millionth at 100% a year earns less than a millionth
    assert_eq!(calculate_monthly_interest(1, micros(100.0)), 0);
    assert_eq!(calculate_monthly_interest(12, micros(100.0)), 1);
    // 1000 * 0.15 / 12 = 12.50
    assert_eq!(calculate_monthly_interest(micros(1000.0), micros(15.0)), 12_500_000);
}

#[test]
fn monthly_interest_of_negative_balance_or_rate_is_nothing() {
    assert_eq!(calculate_monthly_interest(micros(-1000.0), micros(18.0)), 0);
    assert_eq!(calculate_monthly_interest(micros(1000.0), micros(-18.0)), 0);
    assert_eq!(calculate_monthly_interest(i64::MIN, i64::MIN), 0);
}

#[test]
fn monthly_interest_of_the_largest_values_is_held() {
    let expected = (i64::MAX as i128 * i64::MAX as i128) / 1_200_000_000;
    assert_eq!(calculate_monthly_interest(i64::MAX, i64::MAX), expected);
}

#[test]
fn total_interest_is_nothing_without_payments_beyond_the_principal() {
    assert_eq!(calculate_total_interest(micros(1000.0), 0, 0), 0);
    assert_eq!(calculate_total_interest(micros(1000.0), 0, micros(-5.0)), 0);
    assert_eq!(calculate_total_interest(micros(1000.0), micros(400.0), micros(600.0)), 0);
    assert_eq!(calculate_total_interest(micros(1000.0), micros(400.0), micros(599.0)), 0);
    assert_eq!(calculate_total_interest(micros(1000.0), micros(400.0), micros(601.0)), 1_000_000);
    assert_eq!(calculate_total_interest(i64::MIN, i64::MAX, i64::MAX), i64::MAX as i128 + (1i128 << 64) - 1);
}

#[test]
fn payment_with_interest_applies_interest_first() {
    // 1000 at 15%: 12.50 interest, then 50 paid
    assert_eq!(apply_payment_with_interest(micros(1000.0), micros(15.0), micros(50.0)), 962_500_000);
    // a negative payment adds to the balance
    assert_eq!(apply_payment_with_interest(micros(100.0), 0, micros(-20.0)), 120_000_000);
    // no interest on a negative balance, and nothing below zero
    assert_eq!(apply_payment_with_interest(micros(-100.0), micros(15.0), 0), 0);
}

#[test]
fn effective_annual_rate_of_simple_rates() {
    assert_eq!(calculate_effective_annual_rate(0), 0);
    // 100% a month doubles the balance twelve times
    assert_eq!(calculate_effective_annual_rate(micros(100.0)), 4095 * 100_000_000);
    // -100% a month leaves nothing
    assert_eq!(calculate_effective_annual_rate(micros(-100.0)), -100_000_000);
    // 1% a month: 1.01 ^ 12 = 1.12682503...
    assert_eq!(calculate_effective_annual_rate(micros(1.0)), 12_682_501);
}
