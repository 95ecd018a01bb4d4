use budget_balancer::calendar::CalendarDay;
use budget_balancer::models::debt::Debt;
use budget_balancer::services::payment_scheduler::PaymentScheduler;

fn micros(units: f64) -> i64 {
    (units * 1_000_000.0).round() as i64
}

fn units(micros: i128) -> f64 {
    micros as f64 / 1_000_000.0
}

fn debt(id: i64, name: &str, balance: f64, original: f64, rate: f64, min_payment: f64) -> Debt {
    Debt {
        id,
        name: name.to_string(),
        balance: micros(balance),
        original_balance: micros(original),
        interest_rate: micros(rate),
        min_payment: micros(min_payment),
        created_at: "2025-01-01".to_string(),
        updated_at: "2025-01-01".to_string(),
    }
}

fn today() -> CalendarDay {
    CalendarDay::from_ymd(2025, 6, 18).unwrap()
}

#[test]
fn test_generate_monthly_schedule() {
    let debts = vec![
        debt(1, "Credit Card A", 1000.0, 1000.0, 18.0, 50.0),
        debt(2, "Credit Card B", 2000.0, 2000.0, 15.0, 75.0),
    ];

    let schedule = PaymentScheduler::generate_monthly_schedule(debts, today());

    assert_eq!(schedule.len(), 2);
    assert_eq!(schedule[0].debt_id, 1);
    assert_eq!(units(schedule[0].amount as i128), 50.0);
    assert!(schedule[0].is_minimum);
    assert_eq!(schedule[1].debt_id, 2);
    assert_eq!(units(schedule[1].amount as i128), 75.0);
}

#[test]
fn test_generate_future_schedules() {
    let debts = vec![debt(1, "Card", 1000.0, 1000.0, 18.0, 50.0)];

    let schedules = PaymentScheduler::generate_future_schedules(debts, 3, today());

    assert_eq!(schedules.len(), 3);
    assert_eq!(schedules[0].payments.len(), 1);
    assert_eq!(units(schedules[0].total_amount), 50.0);
}

#[test]
fn test_next_due_date_format() {
    let due_date = PaymentScheduler::get_next_due_date(today());

    // Should be in YYYY-MM-DD format
    assert_eq!(due_date.len(), 10);
    assert_eq!(&due_date[4..5], "-");
    assert_eq!(&due_date[7..8], "-");
}

#[test]
fn test_exclude_zero_balance_debts() {
    let debts = vec![
        debt(1, "Active Card", 1000.0, 1000.0, 18.0, 50.0),
        debt(2, "Paid Off Card", 0.0, 1000.0, 15.0, 0.0),
    ];

    let schedule = PaymentScheduler::generate_monthly_schedule(debts, today());

    // Should only include the debt with positive balance
    assert_eq!(schedule.len(), 1);
    assert_eq!(schedule[0].debt_id, 1);
}

#[test]
fn monthly_schedule_is_due_on_the_fifteenth_of_the_month() {
    let debts = vec![
        debt(1, "A", 1000.0, 1000.0, 18.0, 50.0),
        debt(2, "Negative", -5.0, 10.0, 18.0, 50.0),
        debt(3, "C", 0.000001, 10.0, 18.0, 7.5),
    ];
    let schedule = PaymentScheduler::generate_monthly_schedule(debts, today());
    assert_eq!(schedule.len(), 2);
    assert_eq!(schedule[0].due_date, "2025-06-15");
    assert_eq!(schedule[0].debt_name, "A");
    assert_eq!(schedule[1].debt_id, 3);
    assert_eq!(schedule[1].amount, 7_500_000);
    assert_eq!(schedule[1].due_date, "2025-06-15");
    assert!(schedule[1].is_minimum);
    assert!(PaymentScheduler::generate_monthly_schedule(Vec::new(), today()).is_empty());
}

#[test]
fn next_due_date_is_this_month_until_the_fifteenth() {
    let day = |y, m, d| CalendarDay::from_ymd(y, m, d).unwrap();
    assert_eq!(PaymentScheduler::get_next_due_date(day(2025, 6, 1)), "2025-06-15");
    assert_eq!(PaymentScheduler::get_next_due_date(day(2025, 6, 15)), "2025-06-15");
    assert_eq!(PaymentScheduler::get_next_due_date(day(2025, 6, 16)), "2025-07-15");
    assert_eq!(PaymentScheduler::get_next_due_date(day(2025, 12, 15)), "2025-12-15");
    assert_eq!(PaymentScheduler::get_next_due_date(day(2025, 12, 16)), "2026-01-15");
    assert_eq!(PaymentScheduler::get_next_due_date(day(2024, 1, 31)), "2024-02-15");
    // beyond the last year the day itself is given
    assert_eq!(PaymentScheduler::get_next_due_date(day(9999, 12, 16)), "9999-12-16");
}

#[test]
fn future_schedules_name_their_months() {
    let debts = vec![
        debt(1, "A", 1000.0, 1000.0, 18.0, 50.0),
        debt(2, "Paid", 0.0, 1000.0, 18.0, 20.0),
        debt(3, "C", 10.0, 1000.0, 18.0, 25.5),
    ];
    let schedules = PaymentScheduler::generate_future_schedules(debts, 9, CalendarDay::from_ymd(2025, 11, 30).unwrap());
    let months: Vec<&str> = schedules.iter().map(|s| s.month.as_str()).collect();
    assert_eq!(
        months,
        vec!["2025-11", "2025-12", "2026-01", "2026-02", "2026-03", "2026-04", "2026-05", "2026-06", "2026-07"]
    );
    for schedule in &schedules {
        assert_eq!(schedule.total_amount, 75_500_000);
        assert_eq!(schedule.payments.len(), 2);
        assert_eq!(schedule.payments[1].debt_id, 3);
        assert_eq!(schedule.payments[0].due_date, format!("{}-15", schedule.month));
    }
    assert!(PaymentScheduler::generate_future_schedules(Vec::new(), 0, today()).is_empty());
    let empty = PaymentScheduler::generate_future_schedules(Vec::new(), 2, today());
    assert_eq!(empty.len(), 2);
    assert_eq!(empty[1].month, "2025-07");
    assert_eq!(empty[1].total_amount, 0);
}

#[test]
fn future_schedules_in_early_years_are_padded() {
    let schedules =
        PaymentScheduler::generate_future_schedules(Vec::new(), 2, CalendarDay::from_ymd(42, 12, 31).unwrap());
    assert_eq!(schedules[0].month, "0042-12");
    assert_eq!(schedules[1].month, "0043-01");
}

#[test]
fn future_schedules_past_the_last_year_fall_back_to_today() {
    let schedules =
        PaymentScheduler::generate_future_schedules(Vec::new(), 3, CalendarDay::from_ymd(9999, 11, 20).unwrap());
    let months: Vec<&str> = schedules.iter().map(|s| s.month.as_str()).collect();
    assert_eq!(months, vec!["9999-11", "9999-12", "9999-11"]);
}
