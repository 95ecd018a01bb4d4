use vstd::prelude::*;
use crate::calendar::CalendarDay;
use crate::errors::DebtError;
use crate::models::debt::{Debt, PayoffStrategy};
use crate::services::payoff_model::{MonthModel, PaymentModel, PlanModel, planned, SummaryModel};
use crate::services::payoff_simulator::{all_plannable, plan_payoff, reports};

verus! {

/// A complete payoff plan. Money is in millionths of a currency unit.
#[derive(Debug)]
pub struct PayoffPlan {
    pub strategy: String,
    pub payoff_date: String,
    pub total_interest: i128,
    pub monthly_breakdown: Vec<MonthlyPayment>,
    pub debt_summaries: Vec<DebtSummary>,
}

/// The record of one simulated month.
#[derive(Debug)]
pub struct MonthlyPayment {
    pub month: i32,
    pub date: String,
    pub payments: Vec<DebtPaymentDetail>,
    pub total_paid: i128,
    pub remaining_balance: i128,
}

/// What one debt received in one month.
#[derive(Debug)]
pub struct DebtPaymentDetail {
    pub debt_id: i64,
    pub debt_name: String,
    pub amount: i128,
}

/// What the plan says of one debt.
#[derive(Debug)]
pub struct DebtSummary {
    pub debt_id: i64,
    pub debt_name: String,
    pub payoff_month: i32,
    pub total_interest_paid: i128,
}

impl View for DebtPaymentDetail {
    type V = PaymentModel;

    open spec fn view(&self) -> PaymentModel {
        PaymentModel { debt_id: self.debt_id as int, debt_name: self.debt_name@, amount: self.amount as int }
    }
}

/// The payments as contracts speak of them.
pub open spec fn payment_models(v: Seq<DebtPaymentDetail>) -> Seq<PaymentModel> {
    v.map_values(|p: DebtPaymentDetail| p@)
}

impl View for MonthlyPayment {
    type V = MonthModel;

    open spec fn view(&self) -> MonthModel {
        MonthModel {
            month: self.month as int,
            payments: payment_models(self.payments@),
            total_paid: self.total_paid as int,
            remaining_balance: self.remaining_balance as int,
        }
    }
}

/// The months as contracts speak of them.
pub open spec fn month_models(v: Seq<MonthlyPayment>) -> Seq<MonthModel> {
    v.map_values(|m: MonthlyPayment| m@)
}

impl View for DebtSummary {
    type V = SummaryModel;

    open spec fn view(&self) -> SummaryModel {
        SummaryModel {
            debt_id: self.debt_id as int,
            debt_name: self.debt_name@,
            payoff_month: self.payoff_month as int,
            total_interest_paid: self.total_interest_paid as int,
        }
    }
}

impl View for PayoffPlan {
    type V = PlanModel;

    open spec fn view(&self) -> PlanModel {
        PlanModel {
            strategy: self.strategy@,
            payoff_date: self.payoff_date@,
            total_interest: self.total_interest as int,
            months: month_models(self.monthly_breakdown@),
            dates: self.monthly_breakdown@.map_values(|m: MonthlyPayment| m.date@),
            summaries: self.debt_summaries@.map_values(|s: DebtSummary| s@),
        }
    }
}

/// Plans by interest rate: the surplus goes to the debt with the highest rate.
pub struct AvalancheCalculator;

impl AvalancheCalculator {
    /// Plans the payoff of `debts`, the surplus of each month going to the debt that stands
    /// first when the debts are sorted once by falling interest rate, debts of equal rate in
    /// the order given. The first month is dated `start`.
    pub fn calculate_payoff_plan(debts: Vec<Debt>, monthly_amount: i64, start: CalendarDay) -> (result: Result<
        PayoffPlan,
        DebtError,
    >)
        requires
            all_plannable(debts@),
        ensures
            reports(result, planned(PayoffStrategy::Avalanche, monthly_amount as int, debts@, start@)),
    {
        plan_payoff(PayoffStrategy::Avalanche, &debts, monthly_amount, start)
    }
}

} // verus!
