use vstd::prelude::*;
use crate::calendar::CalendarDay;
use crate::errors::DebtError;
use crate::models::debt::{Debt, PayoffStrategy};
use crate::services::avalanche_calculator::PayoffPlan;
use crate::services::payoff_model::planned;
use crate::services::payoff_simulator::{all_plannable, plan_payoff, reports};

verus! {

/// Plans by balance: the surplus goes to the debt with the lowest balance.
pub struct SnowballCalculator;

impl SnowballCalculator {
    /// Plans the payoff of `debts`, the surplus of each month going to the debt that stands
    /// first when the debts are sorted anew, at the start of the month, by rising balance,
    /// debts that are paid off last and debts of equal balance in the order they had.
    /// The first month is dated `start`.
    pub fn calculate_payoff_plan(debts: Vec<Debt>, monthly_amount: i64, start: CalendarDay) -> (result: Result<
        PayoffPlan,
        DebtError,
    >)
        requires
            all_plannable(debts@),
        ensures
            reports(result, planned(PayoffStrategy::Snowball, monthly_amount as int, debts@, start@)),
    {
        plan_payoff(PayoffStrategy::Snowball, &debts, monthly_amount, start)
    }
}

} // verus!
