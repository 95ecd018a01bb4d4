use vstd::prelude::*;
use crate::calendar::iso_date_text;
use crate::constants::{
    MAX_INTEREST_RATE, MAX_PAYOFF_MONTHS, MIN_INTEREST_RATE, ZERO_BALANCE_THRESHOLD,
};
use crate::models::debt::{Debt, PayoffStrategy};
use crate::services::interest_calculator::monthly_interest;
use crate::services::summation::{first_where, sum};

verus! {

// The mathematical model of the payoff simulation: unbounded integers, sequences, and one
// function per step of a simulated month. The executable planner is proved to compute
// exactly `plan_outcome`.

/// One debt of the working set.
pub struct DebtModel {
    pub id: int,
    pub name: Seq<char>,
    pub balance: int,
    pub interest_rate: int,
    pub min_payment: int,
    pub total_interest_paid: int,
    pub payoff_month: Option<int>,
}

/// What one debt received in one month.
pub struct PaymentModel {
    pub debt_id: int,
    pub debt_name: Seq<char>,
    pub amount: int,
}

/// The record of one simulated month.
pub struct MonthModel {
    pub month: int,
    pub payments: Seq<PaymentModel>,
    pub total_paid: int,
    pub remaining_balance: int,
}

/// How a simulation ends.
pub enum Outcome {
    /// Every balance fell below the threshold.
    Complete { states: Seq<DebtModel>, months: Seq<MonthModel> },
    /// Some balance was still owed when the last allowed month had passed.
    Failed,
}

/// Why no plan was made.
pub enum Rejection {
    NoDebts,
    InsufficientFunds { monthly: int, min_payments: int },
    PayoffExceeded,
}

/// A debt still takes part while its balance has not fallen below the threshold.
pub open spec fn is_active(d: DebtModel) -> bool {
    d.balance >= ZERO_BALANCE_THRESHOLD
}

/// Nothing is owed any more.
pub open spec fn all_paid(s: Seq<DebtModel>) -> bool {
    forall|i: int| 0 <= i < s.len() ==> !is_active(#[trigger] s[i])
}

/// The balances of the debts.
pub open spec fn balances(s: Seq<DebtModel>) -> Seq<int> {
    s.map_values(|d: DebtModel| d.balance)
}

/// What is owed in all.
pub open spec fn total_balance(s: Seq<DebtModel>) -> int {
    sum(balances(s))
}

/// The minimum payments of the debts.
pub open spec fn minimums(s: Seq<DebtModel>) -> Seq<int> {
    s.map_values(|d: DebtModel| d.min_payment)
}

/// The minimum payments of all debts together.
pub open spec fn total_minimums(s: Seq<DebtModel>) -> int {
    sum(minimums(s))
}

/// The interest paid on each debt so far.
pub open spec fn interests(s: Seq<DebtModel>) -> Seq<int> {
    s.map_values(|d: DebtModel| d.total_interest_paid)
}

/// The interest paid on all debts so far.
pub open spec fn total_interest_paid(s: Seq<DebtModel>) -> int {
    sum(interests(s))
}

/// What the simulation keeps true of every debt: nothing negative, and a rate of at most 100%.
pub open spec fn well_formed(d: DebtModel) -> bool {
    &&& d.balance >= 0
    &&& d.min_payment >= 0
    &&& d.total_interest_paid >= 0
    &&& MIN_INTEREST_RATE <= d.interest_rate <= MAX_INTEREST_RATE
}

/// Every debt is well-formed.
pub open spec fn all_well_formed(s: Seq<DebtModel>) -> bool {
    forall|i: int| 0 <= i < s.len() ==> well_formed(#[trigger] s[i])
}

/// A working set that the budget can serve: well-formed debts whose minimum payments the
/// budget covers.
pub open spec fn serviceable(s: Seq<DebtModel>, budget: int) -> bool {
    &&& all_well_formed(s)
    &&& total_minimums(s) <= budget
}

// ----- the working set -----

/// The state in which a debt enters the working set: nothing paid, no payoff month.
pub open spec fn initial_state(d: Debt) -> DebtModel {
    DebtModel {
        id: d.id as int,
        name: d.name@,
        balance: d.balance as int,
        interest_rate: d.interest_rate as int,
        min_payment: d.min_payment as int,
        total_interest_paid: 0,
        payoff_month: None,
    }
}

/// The working set as it is opened, in the order of the debts.
pub open spec fn initial_states(debts: Seq<Debt>) -> Seq<DebtModel> {
    debts.map_values(|d: Debt| initial_state(d))
}

// ----- ordering -----

/// `a` has to stand before `b`. Under the avalanche strategy the higher rate goes first;
/// under the snowball strategy the lower balance, and any debt still owed before any paid one.
pub open spec fn comes_before(strategy: PayoffStrategy, a: DebtModel, b: DebtModel) -> bool {
    match strategy {
        PayoffStrategy::Avalanche => a.interest_rate > b.interest_rate,
        PayoffStrategy::Snowball => is_active(a) && (!is_active(b) || a.balance < b.balance),
    }
}

/// Where `x` enters an ordered sequence: before the first element it has to stand before.
pub open spec fn insert_position(strategy: PayoffStrategy, s: Seq<DebtModel>, x: DebtModel) -> int {
    first_where(s, |e: DebtModel| comes_before(strategy, x, e))
}

/// The sequence in the strategy's order, elements of equal rank in their former order.
pub open spec fn stable_sort(strategy: PayoffStrategy, s: Seq<DebtModel>) -> Seq<DebtModel>
    decreases s.len(),
{
    if s.len() == 0 {
        s
    } else {
        let sorted = stable_sort(strategy, s.drop_last());
        sorted.insert(insert_position(strategy, sorted, s.last()), s.last())
    }
}

/// The order in which the working set enters the first month.
pub open spec fn opening_order(strategy: PayoffStrategy, s: Seq<DebtModel>) -> Seq<DebtModel> {
    match strategy {
        PayoffStrategy::Avalanche => stable_sort(strategy, s),
        PayoffStrategy::Snowball => s,
    }
}

/// The order in which the working set enters each month.
pub open spec fn monthly_order(strategy: PayoffStrategy, s: Seq<DebtModel>) -> Seq<DebtModel> {
    match strategy {
        PayoffStrategy::Avalanche => s,
        PayoffStrategy::Snowball => stable_sort(strategy, s),
    }
}

// ----- one month -----

/// The interest that a month adds to a debt: none once it is paid off.
pub open spec fn accrued_interest(d: DebtModel) -> int {
    if is_active(d) {
        monthly_interest(d.balance, d.interest_rate)
    } else {
        0
    }
}

/// Interest is added to the balance before any payment is made, and counted.
pub open spec fn accrue_one(d: DebtModel) -> DebtModel {
    DebtModel {
        balance: d.balance + accrued_interest(d),
        total_interest_paid: d.total_interest_paid + accrued_interest(d),
        ..d
    }
}

/// Every debt with a month's interest added.
pub open spec fn accrue(s: Seq<DebtModel>) -> Seq<DebtModel> {
    s.map_values(|d: DebtModel| accrue_one(d))
}

/// The minimum payment a debt receives: its minimum, or its balance if that is less; nothing
/// once it is paid off.
pub open spec fn minimum_due(d: DebtModel) -> int {
    if !is_active(d) {
        0
    } else if d.min_payment <= d.balance {
        d.min_payment
    } else {
        d.balance
    }
}

/// The interest that a month adds to each debt.
pub open spec fn accruals(s: Seq<DebtModel>) -> Seq<int> {
    s.map_values(|d: DebtModel| accrued_interest(d))
}

/// The interest that a month adds in all.
pub open spec fn total_accrued(s: Seq<DebtModel>) -> int {
    sum(accruals(s))
}

/// The minimum payment that each debt receives.
pub open spec fn dues(s: Seq<DebtModel>) -> Seq<int> {
    s.map_values(|d: DebtModel| minimum_due(d))
}

/// The minimum payments that are made in all.
pub open spec fn total_due(s: Seq<DebtModel>) -> int {
    sum(dues(s))
}

/// A payment reduces the balance; the month in which the balance first falls below the
/// threshold is kept as the payoff month.
pub open spec fn settle(d: DebtModel, paid: int, month: int) -> DebtModel {
    let balance = d.balance - paid;
    DebtModel {
        balance,
        payoff_month: if balance < ZERO_BALANCE_THRESHOLD && d.payoff_month is None {
            Some(month)
        } else {
            d.payoff_month
        },
        ..d
    }
}

/// A debt still owed receives its minimum payment; a debt paid off is left as it is.
pub open spec fn pay_minimum(d: DebtModel, month: int) -> DebtModel {
    if is_active(d) {
        settle(d, minimum_due(d), month)
    } else {
        d
    }
}

/// Every debt after the minimum payments.
pub open spec fn pay_minimums(s: Seq<DebtModel>, month: int) -> Seq<DebtModel> {
    s.map_values(|d: DebtModel| pay_minimum(d, month))
}

/// The payment records of the minimum payments: one for each debt still owed, in order.
pub open spec fn minimum_payments(s: Seq<DebtModel>) -> Seq<PaymentModel>
    decreases s.len(),
{
    if s.len() == 0 {
        Seq::empty()
    } else if is_active(s.last()) {
        minimum_payments(s.drop_last()).push(
            PaymentModel { debt_id: s.last().id, debt_name: s.last().name, amount: minimum_due(s.last()) },
        )
    } else {
        minimum_payments(s.drop_last())
    }
}

/// The index of the first debt still owed, or the length if there is none.
pub open spec fn first_active(s: Seq<DebtModel>) -> int {
    first_where(s, |d: DebtModel| is_active(d))
}

/// The index of the first record for the debt `id`, or the length if there is none.
pub open spec fn first_payment_of(payments: Seq<PaymentModel>, id: int) -> int {
    first_where(payments, |p: PaymentModel| p.debt_id == id)
}

/// The extra payment joins the first record of the same debt, or becomes a record of its own.
pub open spec fn merge_payment(payments: Seq<PaymentModel>, extra: PaymentModel) -> Seq<PaymentModel> {
    let at = first_payment_of(payments, extra.debt_id);
    if at < payments.len() {
        payments.update(at, PaymentModel { amount: payments[at].amount + extra.amount, ..payments[at] })
    } else {
        payments.push(extra)
    }
}

/// What is left of the budget once the minimum payments are made.
pub open spec fn surplus(accrued: Seq<DebtModel>, budget: int) -> int {
    budget - total_due(accrued)
}

/// The whole surplus goes to one debt: the first still owed after the minimum payments,
/// and only if the surplus exceeds the threshold.
pub open spec fn receives_extra(accrued: Seq<DebtModel>, budget: int, month: int) -> bool {
    &&& surplus(accrued, budget) > ZERO_BALANCE_THRESHOLD
    &&& first_active(pay_minimums(accrued, month)) < accrued.len()
}

/// The extra payment: the surplus, or the target's balance if that is less.
pub open spec fn extra_amount(target: DebtModel, surplus: int) -> int {
    if surplus <= target.balance {
        surplus
    } else {
        target.balance
    }
}

/// The working set at the end of a month that it entered as `ordered`.
pub open spec fn month_end(ordered: Seq<DebtModel>, budget: int, month: int) -> Seq<DebtModel> {
    let accrued = accrue(ordered);
    let paid = pay_minimums(accrued, month);
    if receives_extra(accrued, budget, month) {
        let at = first_active(paid);
        paid.update(at, settle(paid[at], extra_amount(paid[at], surplus(accrued, budget)), month))
    } else {
        paid
    }
}

/// The payments of a month that the working set entered as `ordered`.
pub open spec fn month_payments(ordered: Seq<DebtModel>, budget: int, month: int) -> Seq<PaymentModel> {
    let accrued = accrue(ordered);
    let paid = pay_minimums(accrued, month);
    if receives_extra(accrued, budget, month) {
        let target = paid[first_active(paid)];
        merge_payment(
            minimum_payments(accrued),
            PaymentModel {
                debt_id: target.id,
                debt_name: target.name,
                amount: extra_amount(target, surplus(accrued, budget)),
            },
        )
    } else {
        minimum_payments(accrued)
    }
}

/// The amounts of the payments.
pub open spec fn amounts(payments: Seq<PaymentModel>) -> Seq<int> {
    payments.map_values(|p: PaymentModel| p.amount)
}

/// What the payments come to.
pub open spec fn total_paid(payments: Seq<PaymentModel>) -> int {
    sum(amounts(payments))
}

/// The record of a month that the working set entered as `ordered`.
pub open spec fn month_record(ordered: Seq<DebtModel>, budget: int, month: int) -> MonthModel {
    let payments = month_payments(ordered, budget, month);
    MonthModel {
        month,
        payments,
        total_paid: total_paid(payments),
        remaining_balance: total_balance(month_end(ordered, budget, month)),
    }
}

// ----- the simulation -----

/// Runs the months from `month` on. The simulation is complete as soon as nothing is owed;
/// it fails if something is still owed after the last allowed month.
pub open spec fn run(
    strategy: PayoffStrategy,
    budget: int,
    s: Seq<DebtModel>,
    month: int,
    months: Seq<MonthModel>,
) -> Outcome
    decreases MAX_PAYOFF_MONTHS + 1 - month,
{
    if all_paid(s) {
        Outcome::Complete { states: s, months }
    } else if month > MAX_PAYOFF_MONTHS {
        Outcome::Failed
    } else {
        let ordered = monthly_order(strategy, s);
        run(
            strategy,
            budget,
            month_end(ordered, budget, month),
            month + 1,
            months.push(month_record(ordered, budget, month)),
        )
    }
}

/// The simulation of a whole plan, from the first month.
pub open spec fn simulate(strategy: PayoffStrategy, budget: int, debts: Seq<Debt>) -> Outcome {
    run(strategy, budget, opening_order(strategy, initial_states(debts)), 1, Seq::empty())
}

/// The minimum payments of the debts given, all together.
pub open spec fn total_min_payments(debts: Seq<Debt>) -> int {
    total_minimums(initial_states(debts))
}

/// The inputs for which no simulation is run, and why.
pub open spec fn rejection(budget: int, debts: Seq<Debt>) -> Option<Rejection> {
    if debts.len() == 0 {
        Some(Rejection::NoDebts)
    } else if budget < total_min_payments(debts) {
        Some(Rejection::InsufficientFunds { monthly: budget, min_payments: total_min_payments(debts) })
    } else {
        None
    }
}

/// The result of planning: a rejection, or what the simulation gives.
pub open spec fn plan_outcome(strategy: PayoffStrategy, budget: int, debts: Seq<Debt>) -> Result<
    Outcome,
    Rejection,
> {
    match rejection(budget, debts) {
        Some(r) => Err(r),
        None => match simulate(strategy, budget, debts) {
            Outcome::Failed => Err(Rejection::PayoffExceeded),
            done => Ok(done),
        },
    }
}

// ----- the plan -----

/// What a plan says of one debt.
pub struct SummaryModel {
    pub debt_id: int,
    pub debt_name: Seq<char>,
    pub payoff_month: int,
    pub total_interest_paid: int,
}

/// A payoff plan.
pub struct PlanModel {
    pub strategy: Seq<char>,
    pub payoff_date: Seq<char>,
    pub total_interest: int,
    pub months: Seq<MonthModel>,
    pub dates: Seq<Seq<char>>,
    pub summaries: Seq<SummaryModel>,
}

/// The summary of a debt at the end of the simulation. A debt that never was owed has no
/// payoff month, which is written as month 0.
pub open spec fn summary_of(d: DebtModel) -> SummaryModel {
    SummaryModel {
        debt_id: d.id,
        debt_name: d.name,
        payoff_month: match d.payoff_month {
            Some(m) => m,
            None => 0,
        },
        total_interest_paid: d.total_interest_paid,
    }
}

/// The date shown for a simulated month: thirty days for each month after the first.
pub open spec fn month_date_text(start: int, month: int) -> Seq<char> {
    iso_date_text(start + 30 * (month - 1))
}

/// The plan that is assembled from a completed simulation which began on day `start`.
pub open spec fn assembled(
    strategy: PayoffStrategy,
    states: Seq<DebtModel>,
    months: Seq<MonthModel>,
    start: int,
) -> PlanModel {
    PlanModel {
        strategy: strategy.text(),
        payoff_date: if months.len() == 0 {
            Seq::empty()
        } else {
            month_date_text(start, months.len() as int)
        },
        total_interest: total_interest_paid(states),
        months,
        dates: Seq::new(months.len(), |k: int| month_date_text(start, k + 1)),
        summaries: states.map_values(|d: DebtModel| summary_of(d)),
    }
}

/// The plan or the rejection that planning gives.
pub open spec fn planned(strategy: PayoffStrategy, budget: int, debts: Seq<Debt>, start: int) -> Result<
    PlanModel,
    Rejection,
> {
    match plan_outcome(strategy, budget, debts) {
        Ok(Outcome::Complete { states, months }) => Ok(assembled(strategy, states, months, start)),
        Ok(Outcome::Failed) => Err(Rejection::PayoffExceeded),
        Err(r) => Err(r),
    }
}

} // verus!
