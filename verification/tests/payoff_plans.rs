use budget_balancer::calendar::CalendarDay;
use budget_balancer::commands::debt_commands::{
    calculate_payoff_plan_impl, compare_strategies_impl, get_payoff_plan_impl, validate_debts,
    PayoffPlanResponse,
};
use budget_balancer::errors::DebtError;
use budget_balancer::models::debt::{Debt, PayoffStrategy};
use budget_balancer::services::avalanche_calculator::{AvalancheCalculator, PayoffPlan};
use budget_balancer::services::payoff_simulator::{
    check_all_plannable, open_working_set, plan_payoff, sort_states, summarize, DebtState,
};
use budget_balancer::services::snowball_calculator::SnowballCalculator;

fn micros(units: f64) -> i64 {
    (units * 1_000_000.0).round() as i64
}

fn units(micros: i128) -> f64 {
    micros as f64 / 1_000_000.0
}

fn debt(id: i64, name: &str, balance: f64, rate: f64, min_payment: f64) -> Debt {
    Debt {
        id,
        name: name.to_string(),
        balance: micros(balance),
        original_balance: micros(balance),
        interest_rate: micros(rate),
        min_payment: micros(min_payment),
        created_at: "2025-01-01".to_string(),
        updated_at: "2025-01-01".to_string(),
    }
}

fn start() -> CalendarDay {
    CalendarDay::from_ymd(2025, 1, 1).unwrap()
}

fn paid(plan: &PayoffPlan, month: usize) -> Vec<(i64, i128)> {
    plan.monthly_breakdown[month - 1].payments.iter().map(|p| (p.debt_id, p.amount)).collect()
}

fn summaries(plan: &PayoffPlan) -> Vec<(i64, i32, i128)> {
    plan.debt_summaries.iter().map(|s| (s.debt_id, s.payoff_month, s.total_interest_paid)).collect()
}

#[test]
fn test_avalanche_calculation_prioritizes_high_interest() {
    let debts = vec![
        debt(1, "Low Interest Card", 1000.0, 10.0, 25.0),
        debt(2, "High Interest Card", 1000.0, 20.0, 25.0),
    ];

    let plan = AvalancheCalculator::calculate_payoff_plan(debts, micros(200.0), start()).unwrap();

    assert_eq!(plan.strategy, "avalanche");
    assert!(units(plan.total_interest) > 0.0);
    assert!(!plan.monthly_breakdown.is_empty());

    // First month should have extra payment going to high interest debt (id: 2)
    let first_month = &plan.monthly_breakdown[0];
    let high_interest_payment = first_month.payments.iter().find(|p| p.debt_id == 2).unwrap();
    let low_interest_payment = first_month.payments.iter().find(|p| p.debt_id == 1).unwrap();

    // High interest debt should get more than minimum
    assert!(units(high_interest_payment.amount) > 25.0);
    // Low interest debt should get only minimum
    assert_eq!(units(low_interest_payment.amount), 25.0);

    // Verify total_paid and remaining_balance are calculated correctly
    assert_eq!(units(first_month.total_paid), 200.0);
    assert!(units(first_month.remaining_balance) > 0.0);
    assert!(units(first_month.remaining_balance) < 2000.0);
}

#[test]
fn avalanche_calculator_test_insufficient_monthly_amount_returns_error() {
    let debts = vec![debt(1, "Card", 1000.0, 15.0, 50.0)];

    let result = AvalancheCalculator::calculate_payoff_plan(debts, micros(25.0), start());
    assert!(result.is_err());
    let error = result.unwrap_err();
    let error_msg = error.message();
    assert!(error_msg.contains("Insufficient funds"));
}

#[test]
fn test_snowball_calculation_prioritizes_low_balance() {
    let debts = vec![
        debt(1, "Small Balance Card", 500.0, 20.0, 25.0),
        debt(2, "Large Balance Card", 2000.0, 10.0, 25.0),
    ];

    let plan = SnowballCalculator::calculate_payoff_plan(debts, micros(200.0), start()).unwrap();

    assert_eq!(plan.strategy, "snowball");
    assert!(units(plan.total_interest) > 0.0);
    assert!(!plan.monthly_breakdown.is_empty());

    // First month should have extra payment going to smallest balance debt (id: 1)
    let first_month = &plan.monthly_breakdown[0];
    let small_balance_payment = first_month.payments.iter().find(|p| p.debt_id == 1).unwrap();
    let large_balance_payment = first_month.payments.iter().find(|p| p.debt_id == 2).unwrap();

    // Small balance debt should get more than minimum
    assert!(units(small_balance_payment.amount) > 25.0);
    // Large balance debt should get only minimum
    assert_eq!(units(large_balance_payment.amount), 25.0);

    // Verify total_paid and remaining_balance are calculated correctly
    assert_eq!(units(first_month.total_paid), 200.0);
    assert!(units(first_month.remaining_balance) > 0.0);
    assert!(units(first_month.remaining_balance) < 2500.0);
}

#[test]
fn snowball_calculator_test_insufficient_monthly_amount_returns_error() {
    let debts = vec![debt(1, "Card", 1000.0, 15.0, 50.0)];

    let result = SnowballCalculator::calculate_payoff_plan(debts, micros(25.0), start());
    assert!(result.is_err());
    let error = result.unwrap_err();
    let error_msg = error.message();
    assert!(error_msg.contains("Insufficient funds"));
    assert_eq!(
        error_msg,
        "Insufficient funds: monthly amount $25.00 is less than total minimum payments $50.00"
    );
}

#[test]
fn single_debt_accrues_interest_before_it_is_paid() {
    let debts = vec![debt(1, "Card", 1000.0, 15.0, 50.0)];
    let plan = AvalancheCalculator::calculate_payoff_plan(debts, micros(50.0), start()).unwrap();
    let first = &plan.monthly_breakdown[0];
    assert_eq!(first.month, 1);
    assert_eq!(first.date, "2025-01-01");
    assert_eq!(paid(&plan, 1), vec![(1, 50_000_000)]);
    assert_eq!(first.total_paid, 50_000_000);
    // 1000 + 12.50 interest - 50 payment
    assert_eq!(first.remaining_balance, 962_500_000);
    assert!(plan.debt_summaries[0].payoff_month > 1);
    assert!(plan.total_interest > 0);
    // the whole plan
    assert_eq!(plan.monthly_breakdown.len(), 24);
    assert_eq!(summaries(&plan), vec![(1, 24, 157_946_834)]);
    assert_eq!(plan.total_interest, 157_946_834);
    assert_eq!(paid(&plan, 24), vec![(1, 7_946_834)]);
    assert_eq!(plan.monthly_breakdown[23].remaining_balance, 0);
    assert_eq!(plan.monthly_breakdown[1].date, "2025-01-31");
    assert_eq!(plan.monthly_breakdown[23].date, "2026-11-22");
    assert_eq!(plan.payoff_date, "2026-11-22");
}

#[test]
fn avalanche_gives_the_whole_surplus_to_the_higher_rate() {
    let debts = vec![debt(1, "A", 1000.0, 10.0, 25.0), debt(2, "B", 1000.0, 20.0, 25.0)];
    let plan = AvalancheCalculator::calculate_payoff_plan(debts, micros(200.0), start()).unwrap();
    // the working set is sorted by rate: B comes first
    assert_eq!(paid(&plan, 1), vec![(2, 175_000_000), (1, 25_000_000)]);
    assert_eq!(plan.monthly_breakdown[0].total_paid, 200_000_000);
    assert_eq!(plan.monthly_breakdown[0].remaining_balance, 1_824_999_999);
    assert_eq!(plan.monthly_breakdown.len(), 11);
    assert_eq!(summaries(&plan), vec![(2, 7, 59_684_730), (1, 11, 69_455_093)]);
    assert_eq!(plan.total_interest, 59_684_730 + 69_455_093);
    assert_eq!(paid(&plan, 11), vec![(1, 129_139_823)]);
    assert_eq!(plan.payoff_date, "2025-10-28");
}

#[test]
fn snowball_with_equal_balances_gives_the_surplus_to_one_debt_only() {
    let debts = vec![debt(1, "A", 1000.0, 10.0, 25.0), debt(2, "B", 1000.0, 20.0, 25.0)];
    let plan = SnowballCalculator::calculate_payoff_plan(debts, micros(200.0), start()).unwrap();
    let first = paid(&plan, 1);
    assert_eq!(first.len(), 2);
    let above_minimum = first.iter().filter(|p| p.1 > 25_000_000).count();
    assert_eq!(above_minimum, 1);
    assert_eq!(first.iter().map(|p| p.1).sum::<i128>(), 200_000_000);
    // debts of equal balance keep the order in which they were given
    assert_eq!(first, vec![(1, 175_000_000), (2, 25_000_000)]);
}

#[test]
fn snowball_sorts_anew_every_month_and_puts_paid_debts_last() {
    let debts = vec![
        debt(1, "Mid", 100.0, 12.0, 10.0),
        debt(2, "Never owed", 0.0, 50.0, 0.0),
        debt(3, "Small", 50.0, 12.0, 10.0),
    ];
    let plan = SnowballCalculator::calculate_payoff_plan(debts, micros(30.0), start()).unwrap();
    assert_eq!(paid(&plan, 1), vec![(3, 20_000_000), (1, 10_000_000)]);
    assert_eq!(plan.monthly_breakdown[0].remaining_balance, 121_500_000);
    assert_eq!(plan.monthly_breakdown.len(), 6);
    // at the end the debt still owed in the last month stands first, the paid ones after it
    assert_eq!(summaries(&plan), vec![(1, 6, 4_029_863), (3, 3, 913_050), (2, 0, 0)]);
    assert_eq!(paid(&plan, 6), vec![(1, 14_029_863)]);
}

#[test]
fn avalanche_keeps_the_order_it_made_at_the_start() {
    let debts = vec![
        debt(1, "First", 100.0, 12.0, 10.0),
        debt(2, "Never owed", 0.0, 50.0, 0.0),
        debt(3, "Last", 200.0, 12.0, 10.0),
    ];
    let plan = AvalancheCalculator::calculate_payoff_plan(debts, micros(30.0), start()).unwrap();
    // sorted by rate once; equal rates keep the order given
    assert_eq!(summaries(&plan), vec![(2, 0, 0), (1, 6, 3_111_713), (3, 11, 14_583_745)]);
    assert_eq!(paid(&plan, 1), vec![(1, 20_000_000), (3, 10_000_000)]);
    assert_eq!(plan.monthly_breakdown[0].remaining_balance, 273_000_000);
    assert_eq!(plan.monthly_breakdown.len(), 11);
    assert_eq!(paid(&plan, 11), vec![(3, 17_695_458)]);
}

#[test]
fn surplus_beyond_the_first_debt_is_not_passed_on() {
    let debts = vec![debt(1, "Small", 100.0, 0.0, 25.0), debt(2, "Large", 10_000.0, 0.0, 25.0)];
    let plan = SnowballCalculator::calculate_payoff_plan(debts, micros(1000.0), start()).unwrap();
    // 950 are left after the minimums, the first debt takes only the 75 it still owes
    assert_eq!(paid(&plan, 1), vec![(1, 100_000_000), (2, 25_000_000)]);
    assert_eq!(plan.monthly_breakdown[0].total_paid, 125_000_000);
    assert_eq!(plan.monthly_breakdown[0].remaining_balance, 9_975_000_000);
    assert_eq!(paid(&plan, 2), vec![(2, 1_000_000_000)]);
    assert_eq!(plan.monthly_breakdown.len(), 11);
    assert_eq!(summaries(&plan), vec![(2, 11, 0), (1, 1, 0)]);
}

#[test]
fn extra_payment_joins_the_first_record_with_the_same_id() {
    let debts = vec![debt(7, "Twin", 300.0, 0.0, 10.0), debt(7, "Twin", 100.0, 0.0, 10.0)];
    let plan = SnowballCalculator::calculate_payoff_plan(debts, micros(60.0), start()).unwrap();
    assert_eq!(paid(&plan, 1), vec![(7, 50_000_000), (7, 10_000_000)]);
    assert_eq!(paid(&plan, 3), vec![(7, 60_000_000)]);
    assert_eq!(plan.monthly_breakdown.len(), 7);
    assert_eq!(summaries(&plan), vec![(7, 7, 0), (7, 2, 0)]);
}

#[test]
fn surplus_at_or_below_the_threshold_is_not_paid() {
    let debts = vec![debt(1, "Card", 1000.0, 0.0, 50.0)];
    let plan = AvalancheCalculator::calculate_payoff_plan(debts, 50_005_000, start()).unwrap();
    assert_eq!(plan.monthly_breakdown[0].total_paid, 50_000_000);
    assert_eq!(plan.monthly_breakdown.len(), 20);
    let debts = vec![debt(1, "Card", 1000.0, 0.0, 50.0)];
    let plan = AvalancheCalculator::calculate_payoff_plan(debts, 50_010_001, start()).unwrap();
    assert_eq!(plan.monthly_breakdown[0].total_paid, 50_010_001);
}

#[test]
fn plan_may_take_all_the_months_allowed_and_no_more() {
    let debts = vec![debt(1, "Slow", 1200.0, 0.0, 1.0)];
    let plan = AvalancheCalculator::calculate_payoff_plan(debts, micros(1.0), start()).unwrap();
    assert_eq!(plan.monthly_breakdown.len(), 1200);
    assert_eq!(plan.debt_summaries[0].payoff_month, 1200);
    assert_eq!(plan.payoff_date, "2123-06-27");

    let debts = vec![debt(1, "Slower", 1201.0, 0.0, 1.0)];
    let result = AvalancheCalculator::calculate_payoff_plan(debts, micros(1.0), start());
    assert!(matches!(result, Err(DebtError::PayoffExceeded(100))));
}

#[test]
fn debts_below_the_threshold_need_no_months() {
    let debts = vec![debt(1, "Nothing", 0.0, 10.0, 0.0), debt(2, "Half a cent", 0.005, 10.0, 5.0)];
    let plan = SnowballCalculator::calculate_payoff_plan(debts, micros(10.0), start()).unwrap();
    assert!(plan.monthly_breakdown.is_empty());
    assert_eq!(plan.payoff_date, "");
    assert_eq!(plan.total_interest, 0);
    assert_eq!(summaries(&plan), vec![(1, 0, 0), (2, 0, 0)]);
}

#[test]
fn balance_of_exactly_the_threshold_is_still_owed() {
    let debts = vec![debt(1, "One cent", 0.01, 0.0, 1.0)];
    let plan = SnowballCalculator::calculate_payoff_plan(debts, micros(1.0), start()).unwrap();
    assert_eq!(plan.monthly_breakdown.len(), 1);
    assert_eq!(paid(&plan, 1), vec![(1, 10_000)]);
    assert_eq!(summaries(&plan), vec![(1, 1, 0)]);
}

#[test]
fn empty_debt_list_is_refused() {
    let result = SnowballCalculator::calculate_payoff_plan(Vec::new(), micros(100.0), start());
    assert!(matches!(result, Err(DebtError::NoDebts)));
    let result = AvalancheCalculator::calculate_payoff_plan(Vec::new(), micros(100.0), start());
    assert!(matches!(result, Err(DebtError::NoDebts)));
}

#[test]
fn budget_below_minimums_is_refused() {
    let debts = vec![debt(1, "Card", 1000.0, 15.0, 50.0)];
    let result = AvalancheCalculator::calculate_payoff_plan(debts, micros(25.0), start());
    match result {
        Err(DebtError::InsufficientFunds { monthly, min_payments }) => {
            assert_eq!(monthly, 25_000_000);
            assert_eq!(min_payments, 50_000_000);
        }
        other => panic!("unexpected result: {:?}", other),
    }
    // the budget may equal the minimums
    let debts = vec![debt(1, "Card", 1000.0, 15.0, 50.0)];
    assert!(AvalancheCalculator::calculate_payoff_plan(debts, micros(50.0), start()).is_ok());
}

#[test]
fn interest_outrunning_payments_exceeds_the_horizon() {
    let debts = vec![debt(1, "Card", 10_000_000.0, 100.0, 0.0)];
    let result = AvalancheCalculator::calculate_payoff_plan(debts, micros(1.0), start());
    assert!(matches!(result, Err(DebtError::PayoffExceeded(100))));
    // a balance that grows for a while and is paid off all the same
    let debts = vec![debt(1, "Growing", 1000.0, 60.0, 0.0), debt(2, "Quick", 100.0, 0.0, 0.0)];
    let plan = SnowballCalculator::calculate_payoff_plan(debts, micros(100.0), start()).unwrap();
    assert!(plan.monthly_breakdown[0].remaining_balance > plan.monthly_breakdown[0].total_paid);
    assert_eq!(plan.debt_summaries.len(), 2);
}

#[test]
fn plan_keeps_its_books() {
    let debts = vec![
        debt(1, "Card", 4200.0, 19.99, 90.0),
        debt(2, "Loan", 12_000.0, 6.5, 220.0),
        debt(3, "Store", 650.0, 24.0, 25.0),
        debt(4, "Paid", 0.0, 24.0, 25.0),
    ];
    for strategy in [PayoffStrategy::Avalanche, PayoffStrategy::Snowball] {
        let budget = micros(600.0);
        let plan = plan_payoff(strategy, &debts, budget, start()).unwrap();
        // the total interest is the sum over the debts
        let by_debt: i128 = plan.debt_summaries.iter().map(|s| s.total_interest_paid).sum();
        assert_eq!(plan.total_interest, by_debt);
        // the number of months is the greatest payoff month
        let last = plan.debt_summaries.iter().map(|s| s.payoff_month).max().unwrap();
        assert_eq!(plan.monthly_breakdown.len() as i32, last);
        let mut paid_in_all: i128 = 0;
        for (k, month) in plan.monthly_breakdown.iter().enumerate() {
            assert_eq!(month.month as usize, k + 1);
            let sum: i128 = month.payments.iter().map(|p| p.amount).sum();
            assert_eq!(month.total_paid, sum);
            assert!(month.total_paid <= budget as i128);
            paid_in_all += month.total_paid;
        }
        // what was paid is what was owed and the interest, less what is left
        let owed: i128 = debts.iter().map(|d| d.balance as i128).sum();
        let left = plan.monthly_breakdown.last().unwrap().remaining_balance;
        assert!(left < 4 * 10_000);
        assert_eq!(paid_in_all, owed + plan.total_interest - left);
        // a payoff month is the first month after which the debt receives nothing
        for summary in &plan.debt_summaries {
            for month in &plan.monthly_breakdown {
                let receives = month.payments.iter().any(|p| p.debt_id == summary.debt_id);
                assert_eq!(receives, month.month <= summary.payoff_month);
            }
        }
        assert_eq!(plan.payoff_date, plan.monthly_breakdown.last().unwrap().date);
    }
}

#[test]
fn planning_twice_gives_the_same_plan() {
    let debts = vec![debt(1, "Card", 4200.0, 19.99, 90.0), debt(2, "Loan", 12_000.0, 6.5, 220.0)];
    let one = plan_payoff(PayoffStrategy::Snowball, &debts, micros(500.0), start()).unwrap();
    let two = plan_payoff(PayoffStrategy::Snowball, &debts, micros(500.0), start()).unwrap();
    assert_eq!(format!("{:?}", one), format!("{:?}", two));
}

#[test]
fn working_set_opens_with_the_debts_as_given() {
    let debts = vec![debt(5, "Card", 120.5, 19.99, 9.0), debt(6, "Loan", 80.0, 6.5, 22.0)];
    let set = open_working_set(&debts);
    assert_eq!(set.total_balance, 200_500_000);
    assert_eq!(set.total_min_payments, 31_000_000);
    assert_eq!(set.states.len(), 2);
    assert_eq!(set.states[0].id, 5);
    assert_eq!(set.states[0].name, "Card");
    assert_eq!(set.states[0].balance, 120_500_000);
    assert_eq!(set.states[0].total_interest_paid, 0);
    assert_eq!(set.states[0].payoff_month, None);
    assert_eq!(set.states[1].interest_rate, 6_500_000);
}

fn state(id: i64, balance: i128, rate: i64) -> DebtState {
    DebtState {
        id,
        name: format!("debt {}", id),
        balance,
        interest_rate: rate,
        min_payment: 0,
        total_interest_paid: 0,
        payoff_month: None,
    }
}

#[test]
fn sorting_is_stable() {
    let states = vec![state(1, 500, 10), state(2, 100, 30), state(3, 500, 30), state(4, 100, 10), state(5, 20_000, 20)];
    let by_rate: Vec<i64> =
        sort_states(PayoffStrategy::Avalanche, states).iter().map(|s| s.id).collect();
    assert_eq!(by_rate, vec![2, 3, 5, 1, 4]);
    // below the threshold all balances rank alike, and after any debt still owed
    let states = vec![
        state(1, 9_999, 10),
        state(2, 30_000, 30),
        state(3, 0, 30),
        state(4, 10_000, 10),
        state(5, 30_000, 20),
    ];
    let by_balance: Vec<i64> =
        sort_states(PayoffStrategy::Snowball, states).iter().map(|s| s.id).collect();
    assert_eq!(by_balance, vec![4, 2, 5, 1, 3]);
}

#[test]
fn strategy_is_read_from_its_name() {
    assert_eq!(PayoffStrategy::parse("avalanche").unwrap(), PayoffStrategy::Avalanche);
    assert_eq!(PayoffStrategy::parse("snowball").unwrap(), PayoffStrategy::Snowball);
    assert_eq!(PayoffStrategy::Avalanche.name(), "avalanche");
    assert_eq!(PayoffStrategy::Snowball.name(), "snowball");
    match PayoffStrategy::parse("Avalanche") {
        Err(DebtError::InvalidStrategy(given)) => assert_eq!(given, "Avalanche"),
        other => panic!("unexpected result: {:?}", other),
    }
    assert!(matches!(PayoffStrategy::parse(""), Err(DebtError::InvalidStrategy(_))));
}

#[test]
fn unknown_strategy_is_refused() {
    let debts = vec![debt(1, "Card", 1000.0, 15.0, 50.0)];
    let result = calculate_payoff_plan_impl(&debts, "invalid_strategy".to_string(), micros(100.0), start());
    match result {
        Err(e @ DebtError::InvalidStrategy(_)) => {
            assert_eq!(e.message(), "Invalid strategy 'invalid_strategy': must be 'avalanche' or 'snowball'");
            assert!(e.to_user_message().contains("Invalid strategy"));
        }
        other => panic!("unexpected result: {:?}", other),
    }
    // without debts there is nothing to plan, whatever the strategy
    let none: Vec<Debt> = Vec::new();
    assert!(matches!(
        calculate_payoff_plan_impl(&none, "invalid_strategy".to_string(), micros(100.0), start()),
        Err(DebtError::NoDebts)
    ));
    // a saved plan is read by its strategy first
    assert!(matches!(
        get_payoff_plan_impl(&none, "invalid_strategy".to_string(), micros(100.0), start()),
        Err(DebtError::InvalidStrategy(_))
    ));
    assert!(matches!(
        get_payoff_plan_impl(&none, "snowball".to_string(), micros(100.0), start()),
        Err(DebtError::NoDebts)
    ));
}

#[test]
fn debts_the_planner_is_not_made_for_are_refused() {
    let debts = vec![debt(1, "ok", 100.0, 5.0, 5.0), debt(2, "rate", 100.0, 120.0, 5.0), debt(3, "bal", -1.0, 5.0, 5.0)];
    assert!(matches!(
        calculate_payoff_plan_impl(&debts, "avalanche".to_string(), micros(100.0), start()),
        Err(DebtError::InvalidInterestRate { min: 0, max: 100_000_000, actual: 120_000_000 })
    ));
    assert!(matches!(
        get_payoff_plan_impl(&debts, "snowball".to_string(), micros(100.0), start()),
        Err(DebtError::InvalidInterestRate { .. })
    ));
    assert!(matches!(
        compare_strategies_impl(&debts, micros(100.0), start()),
        Err(DebtError::InvalidInterestRate { .. })
    ));
    // the name of the strategy is read first
    assert!(matches!(
        calculate_payoff_plan_impl(&debts, "other".to_string(), micros(100.0), start()),
        Err(DebtError::InvalidStrategy(_))
    ));
    let debts = vec![debt(1, "payment", 100.0, 5.0, -5.0), debt(2, "balance", -100.0, 5.0, 5.0)];
    assert!(matches!(validate_debts(&debts), Err(DebtError::InvalidMinPayment(-5_000_000))));
    let debts = vec![debt(1, "both", -100.0, 500.0, -5.0)];
    assert!(matches!(validate_debts(&debts), Err(DebtError::InvalidBalance(-100_000_000))));
    assert!(validate_debts(&Vec::new()).is_ok());
}

#[test]
fn plans_are_made_by_the_name_of_the_strategy() {
    let debts = vec![debt(1, "A", 1000.0, 10.0, 25.0), debt(2, "B", 1000.0, 20.0, 25.0)];
    let plan = calculate_payoff_plan_impl(&debts, "avalanche".to_string(), micros(200.0), start()).unwrap();
    assert_eq!(plan.strategy, "avalanche");
    assert_eq!(paid(&plan, 1), vec![(2, 175_000_000), (1, 25_000_000)]);
    let plan = get_payoff_plan_impl(&debts, "snowball".to_string(), micros(200.0), start()).unwrap();
    assert_eq!(plan.strategy, "snowball");
    assert_eq!(paid(&plan, 1), vec![(1, 175_000_000), (2, 25_000_000)]);
    let response = PayoffPlanResponse::new(42, plan);
    assert_eq!(response.plan_id, 42);
    assert_eq!(response.strategy, "snowball");
    assert_eq!(response.monthly_breakdown.len(), 11);
    assert_eq!(response.monthly_breakdown[0].payments[0].amount, 175_000_000);
    assert_eq!(response.monthly_breakdown[0].payments[0].debt_name, "A");
    assert_eq!(response.monthly_breakdown[10].date, "2025-10-28");
    assert_eq!(response.payoff_date, "2025-10-28");
    assert_eq!(response.debt_summaries[1].payoff_month, 6);
    assert_eq!(response.total_interest, 145_642_619 + 28_933_730);
}

#[test]
fn strategies_are_compared() {
    let debts = vec![debt(1, "Small Balance Card", 500.0, 10.0, 25.0), debt(2, "Large", 2000.0, 20.0, 25.0)];
    let comparison = compare_strategies_impl(&debts, micros(200.0), start()).unwrap();
    assert_eq!(comparison.avalanche.strategy, "avalanche");
    assert_eq!(comparison.snowball.strategy, "snowball");
    assert!(comparison.savings.interest_saved >= 0);
    assert!(comparison.savings.months_saved >= 0);
    assert_eq!(
        comparison.savings.interest_saved,
        comparison.snowball.total_interest - comparison.avalanche.total_interest
    );
    assert!(comparison.snowball.total_interest > comparison.avalanche.total_interest);
    let none: Vec<Debt> = Vec::new();
    assert!(matches!(compare_strategies_impl(&none, micros(200.0), start()), Err(DebtError::NoDebts)));
    let debts = vec![debt(1, "Card", 1000.0, 15.0, 50.0)];
    assert!(matches!(
        compare_strategies_impl(&debts, micros(25.0), start()),
        Err(DebtError::InsufficientFunds { .. })
    ));
}

#[test]
fn summaries_follow_the_working_set() {
    let mut one = state(4, 0, 10);
    one.payoff_month = Some(7);
    one.total_interest_paid = 123;
    let summaries = summarize(&vec![one, state(5, 9_999, 10)]);
    let seen: Vec<(i64, &str, i32, i128)> = summaries
        .iter()
        .map(|s| (s.debt_id, s.debt_name.as_str(), s.payoff_month, s.total_interest_paid))
        .collect();
    assert_eq!(seen, vec![(4, "debt 4", 7, 123), (5, "debt 5", 0, 0)]);
}

#[test]
fn debts_are_checked_for_planning() {
    assert!(check_all_plannable(&Vec::new()));
    assert!(check_all_plannable(&vec![debt(1, "a", 1.0, 1.0, 1.0), debt(2, "b", 0.0, 100.0, 0.0)]));
    assert!(!check_all_plannable(&vec![debt(1, "a", 1.0, 1.0, 1.0), debt(2, "b", 0.0, 100.5, 0.0)]));
    assert!(debt(1, "ok", 0.0, 0.0, 0.0).check_plannable());
    assert!(debt(1, "ok", 10.0, 100.0, 5.0).check_plannable());
    assert!(!debt(1, "rate", 10.0, 100.000001, 5.0).check_plannable());
    assert!(!debt(1, "rate", 10.0, -0.5, 5.0).check_plannable());
    assert!(!debt(1, "balance", -10.0, 5.0, 5.0).check_plannable());
    assert!(!debt(1, "payment", 10.0, 5.0, -5.0).check_plannable());
}
