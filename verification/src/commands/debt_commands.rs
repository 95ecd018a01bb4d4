use vstd::prelude::*;
use crate::calendar::CalendarDay;
use crate::constants::{MAX_INTEREST_RATE, MIN_INTEREST_RATE};
use crate::db::statement::{SqlValue, SqlValueModel, Statement};
use crate::errors::DebtError;
use crate::models::debt::{Debt, DebtPayment, NewDebt, PayoffStrategy};
use crate::services::avalanche_calculator::{payment_models, PayoffPlan};
use crate::services::payoff_laws::lemma_plan_is_consistent;
use crate::services::payoff_model::{MonthModel, PaymentModel, PlanModel, planned, SummaryModel};
use crate::services::payoff_simulator::{all_plannable, plan_payoff, reports};
use crate::services::summation::{lemma_sum_take_step, sum};
use crate::text::{join3, join_all, joined, texts};

verus! {

// ===== what the commands answer =====

#[derive(Debug)]
pub struct PayoffPlanResponse {
    pub plan_id: i64,
    pub strategy: String,
    pub payoff_date: String,
    pub total_interest: i128,
    pub monthly_breakdown: Vec<MonthlyPaymentResponse>,
    pub debt_summaries: Vec<DebtSummaryResponse>,
}

#[derive(Debug)]
pub struct MonthlyPaymentResponse {
    pub month: i32,
    pub date: String,
    pub payments: Vec<DebtPaymentDetailResponse>,
    pub total_paid: i128,
    pub remaining_balance: i128,
}

#[derive(Debug)]
pub struct DebtPaymentDetailResponse {
    pub debt_id: i64,
    pub debt_name: String,
    pub amount: i128,
}

#[derive(Debug)]
pub struct DebtSummaryResponse {
    pub debt_id: i64,
    pub debt_name: String,
    pub payoff_month: i32,
    pub total_interest_paid: i128,
}

#[derive(Debug)]
pub struct RecordPaymentResponse {
    pub payment_id: i64,
    pub updated_balance: i64,
}

#[derive(Debug)]
pub struct BalancePoint {
    pub date: String,
    pub balance: i128,
}

#[derive(Debug)]
pub struct DebtProgressResponse {
    pub debt: Debt,
    pub payments: Vec<DebtPayment>,
    pub total_paid: i128,
    pub balance_history: Vec<BalancePoint>,
}

#[derive(Debug)]
pub struct StrategyComparison {
    pub strategy: String,
    pub payoff_date: String,
    pub total_interest: i128,
    pub payoff_months: i32,
}

#[derive(Debug)]
pub struct ComparisonSavings {
    pub interest_saved: i128,
    pub months_saved: i32,
}

#[derive(Debug)]
pub struct CompareStrategiesResponse {
    pub avalanche: StrategyComparison,
    pub snowball: StrategyComparison,
    pub savings: ComparisonSavings,
}

impl View for DebtPaymentDetailResponse {
    type V = PaymentModel;

    open spec fn view(&self) -> PaymentModel {
        PaymentModel { debt_id: self.debt_id as int, debt_name: self.debt_name@, amount: self.amount as int }
    }
}

impl View for MonthlyPaymentResponse {
    type V = MonthModel;

    open spec fn view(&self) -> MonthModel {
        MonthModel {
            month: self.month as int,
            payments: self.payments@.map_values(|p: DebtPaymentDetailResponse| p@),
            total_paid: self.total_paid as int,
            remaining_balance: self.remaining_balance as int,
        }
    }
}

impl View for DebtSummaryResponse {
    type V = SummaryModel;

    open spec fn view(&self) -> SummaryModel {
        SummaryModel {
            debt_id: self.debt_id as int,
            debt_name: self.debt_name@,
            payoff_month: self.payoff_month as int,
            total_interest_paid: self.total_interest_paid as int,
        }
    }
}

impl View for PayoffPlanResponse {
    type V = PlanModel;

    /// The plan that the response carries.
    open spec fn view(&self) -> PlanModel {
        PlanModel {
            strategy: self.strategy@,
            payoff_date: self.payoff_date@,
            total_interest: self.total_interest as int,
            months: self.monthly_breakdown@.map_values(|m: MonthlyPaymentResponse| m@),
            dates: self.monthly_breakdown@.map_values(|m: MonthlyPaymentResponse| m.date@),
            summaries: self.debt_summaries@.map_values(|s: DebtSummaryResponse| s@),
        }
    }
}

impl PayoffPlanResponse {
    /// The response that carries `plan` under the number it was saved with.
    pub fn new(plan_id: i64, plan: PayoffPlan) -> (response: PayoffPlanResponse)
        ensures
            response.plan_id == plan_id,
            response@ == plan@,
    {
        let mut monthly_breakdown: Vec<MonthlyPaymentResponse> = Vec::new();
        let mut i: usize = 0;
        while i < plan.monthly_breakdown.len()
            invariant
                i <= plan.monthly_breakdown.len(),
                monthly_breakdown.len() == i,
                forall|k: int|
                    0 <= k < i ==> (#[trigger] monthly_breakdown[k])@ == plan.monthly_breakdown[k]@
                        && monthly_breakdown[k].date@ == plan.monthly_breakdown[k].date@,
            decreases plan.monthly_breakdown.len() - i,
        {
            let month = &plan.monthly_breakdown[i];
            let mut payments: Vec<DebtPaymentDetailResponse> = Vec::new();
            let mut j: usize = 0;
            while j < month.payments.len()
                invariant
                    j <= month.payments.len(),
                    payments.len() == j,
                    forall|k: int| 0 <= k < j ==> (#[trigger] payments[k])@ == month.payments[k]@,
                decreases month.payments.len() - j,
            {
                let payment = &month.payments[j];
                payments.push(
                    DebtPaymentDetailResponse {
                        debt_id: payment.debt_id,
                        debt_name: payment.debt_name.clone(),
                        amount: payment.amount,
                    },
                );
                j += 1;
            }
            proof {
                assert(payments@.map_values(|p: DebtPaymentDetailResponse| p@) =~= payment_models(month.payments@));
            }
            monthly_breakdown.push(
                MonthlyPaymentResponse {
                    month: month.month,
                    date: month.date.clone(),
                    payments,
                    total_paid: month.total_paid,
                    remaining_balance: month.remaining_balance,
                },
            );
            i += 1;
        }
        let mut debt_summaries: Vec<DebtSummaryResponse> = Vec::new();
        let mut i: usize = 0;
        while i < plan.debt_summaries.len()
            invariant
                i <= plan.debt_summaries.len(),
                debt_summaries.len() == i,
                forall|k: int| 0 <= k < i ==> (#[trigger] debt_summaries[k])@ == plan.debt_summaries[k]@,
            decreases plan.debt_summaries.len() - i,
        {
            let summary = &plan.debt_summaries[i];
            debt_summaries.push(
                DebtSummaryResponse {
                    debt_id: summary.debt_id,
                    debt_name: summary.debt_name.clone(),
                    payoff_month: summary.payoff_month,
                    total_interest_paid: summary.total_interest_paid,
                },
            );
            i += 1;
        }
        let response = PayoffPlanResponse {
            plan_id,
            strategy: plan.strategy,
            payoff_date: plan.payoff_date,
            total_interest: plan.total_interest,
            monthly_breakdown,
            debt_summaries,
        };
        proof {
            assert(response@.months =~= plan@.months);
            assert(response@.dates =~= plan@.dates);
            assert(response@.summaries =~= plan@.summaries);
        }
        response
    }
}

// ===== debts =====

/// What is wrong with the fields of a new debt, if anything: the balance is looked at
/// first, then the minimum payment, then the interest rate.
pub open spec fn new_debt_problem(debt: NewDebt) -> Option<DebtError> {
    if debt.balance < 0 {
        Some(DebtError::InvalidBalance(debt.balance))
    } else if debt.min_payment < 0 {
        Some(DebtError::InvalidMinPayment(debt.min_payment))
    } else if debt.interest_rate < MIN_INTEREST_RATE || debt.interest_rate > MAX_INTEREST_RATE {
        Some(
            DebtError::InvalidInterestRate {
                min: MIN_INTEREST_RATE,
                max: MAX_INTEREST_RATE,
                actual: debt.interest_rate,
            },
        )
    } else {
        None
    }
}

/// Checks the fields of a debt before it is created.
pub fn validate_new_debt(debt: &NewDebt) -> (result: Result<(), DebtError>)
    ensures
        match result {
            Ok(_) => new_debt_problem(*debt) is None,
            Err(e) => new_debt_problem(*debt) == Some(e),
        },
{
    // Validate inputs
    if debt.balance < 0 {
        return Err(DebtError::InvalidBalance(debt.balance));
    }
    if debt.min_payment < 0 {
        return Err(DebtError::InvalidMinPayment(debt.min_payment));
    }
    if debt.interest_rate < MIN_INTEREST_RATE || debt.interest_rate > MAX_INTEREST_RATE {
        return Err(
            DebtError::InvalidInterestRate {
                min: MIN_INTEREST_RATE,
                max: MAX_INTEREST_RATE,
                actual: debt.interest_rate,
            },
        );
    }
    Ok(())
}

/// The statement that stores a new debt; its original balance is its balance.
pub fn insert_debt_statement(debt: &NewDebt) -> (statement: Statement)
    ensures
        statement.sql@
            == "INSERT INTO debts (name, balance, original_balance, interest_rate, min_payment) VALUES (?, ?, ?, ?, ?)"@,
        statement.bound() == seq![
            SqlValueModel::Text(debt.name@),
            SqlValueModel::Decimal(debt.balance as int),
            SqlValueModel::Decimal(debt.balance as int),
            SqlValueModel::Decimal(debt.interest_rate as int),
            SqlValueModel::Decimal(debt.min_payment as int),
        ],
{
    let mut parameters: Vec<SqlValue> = Vec::new();
    parameters.push(SqlValue::Text(debt.name.clone()));
    parameters.push(SqlValue::Decimal(debt.balance));
    parameters.push(SqlValue::Decimal(debt.balance));  // original_balance = balance initially
    parameters.push(SqlValue::Decimal(debt.interest_rate));
    parameters.push(SqlValue::Decimal(debt.min_payment));
    let statement = Statement {
        sql: "INSERT INTO debts (name, balance, original_balance, interest_rate, min_payment) VALUES (?, ?, ?, ?, ?)".to_owned(),
        parameters,
    };
    proof {
        assert(statement.bound() =~= seq![
            SqlValueModel::Text(debt.name@),
            SqlValueModel::Decimal(debt.balance as int),
            SqlValueModel::Decimal(debt.balance as int),
            SqlValueModel::Decimal(debt.interest_rate as int),
            SqlValueModel::Decimal(debt.min_payment as int),
        ]);
    }
    statement
}

/// What is wrong with the fields that an update gives, if anything: the balance is looked
/// at first, then the interest rate, then the minimum payment.
pub open spec fn debt_update_problem(
    balance: Option<i64>,
    interest_rate: Option<i64>,
    min_payment: Option<i64>,
) -> Option<DebtError> {
    if balance matches Some(b) && b < 0 {
        Some(DebtError::InvalidBalance(balance->0))
    } else if interest_rate matches Some(r) && !(MIN_INTEREST_RATE <= r <= MAX_INTEREST_RATE) {
        Some(
            DebtError::InvalidInterestRate {
                min: MIN_INTEREST_RATE,
                max: MAX_INTEREST_RATE,
                actual: interest_rate->0,
            },
        )
    } else if min_payment matches Some(p) && p < 0 {
        Some(DebtError::InvalidMinPayment(min_payment->0))
    } else {
        None
    }
}

/// Checks the fields that an update of a debt gives.
pub fn validate_debt_update(balance: Option<i64>, interest_rate: Option<i64>, min_payment: Option<i64>) -> (result:
    Result<(), DebtError>)
    ensures
        match result {
            Ok(_) => debt_update_problem(balance, interest_rate, min_payment) is None,
            Err(e) => debt_update_problem(balance, interest_rate, min_payment) == Some(e),
        },
{
    // Validate inputs
    if let Some(bal) = balance {
        if bal < 0 {
            return Err(DebtError::InvalidBalance(bal));
        }
    }
    if let Some(rate) = interest_rate {
        if !(MIN_INTEREST_RATE <= rate && rate <= MAX_INTEREST_RATE) {
            return Err(
                DebtError::InvalidInterestRate { min: MIN_INTEREST_RATE, max: MAX_INTEREST_RATE, actual: rate },
            );
        }
    }
    if let Some(payment) = min_payment {
        if payment < 0 {
            return Err(DebtError::InvalidMinPayment(payment));
        }
    }
    Ok(())
}

/// The assignments of the statement that updates a debt: one for each field given, and
/// the time of the update.
pub open spec fn debt_update_assignments(
    balance: Option<i64>,
    interest_rate: Option<i64>,
    min_payment: Option<i64>,
) -> Seq<Seq<char>> {
    (if balance is Some {
        seq!["balance = ?"@]
    } else {
        Seq::<Seq<char>>::empty()
    }) + (if interest_rate is Some {
        seq!["interest_rate = ?"@]
    } else {
        Seq::<Seq<char>>::empty()
    }) + (if min_payment is Some {
        seq!["min_payment = ?"@]
    } else {
        Seq::<Seq<char>>::empty()
    }) + seq!["updated_at = CURRENT_TIMESTAMP"@]
}

/// The values of the statement that updates a debt: the fields given, in the order of the
/// assignments, and the debt's number.
pub open spec fn debt_update_values(
    debt_id: i64,
    balance: Option<i64>,
    interest_rate: Option<i64>,
    min_payment: Option<i64>,
) -> Seq<SqlValueModel> {
    (if balance is Some {
        seq![SqlValueModel::Decimal(balance->0 as int)]
    } else {
        Seq::<SqlValueModel>::empty()
    }) + (if interest_rate is Some {
        seq![SqlValueModel::Decimal(interest_rate->0 as int)]
    } else {
        Seq::<SqlValueModel>::empty()
    }) + (if min_payment is Some {
        seq![SqlValueModel::Decimal(min_payment->0 as int)]
    } else {
        Seq::<SqlValueModel>::empty()
    }) + seq![SqlValueModel::Integer(debt_id as int)]
}

/// Builds the statement that updates the fields given of a debt.
pub fn update_debt_statement(
    debt_id: i64,
    balance: Option<i64>,
    interest_rate: Option<i64>,
    min_payment: Option<i64>,
) -> (statement: Statement)
    ensures
        statement.sql@ == "UPDATE debts SET "@ + joined(
            debt_update_assignments(balance, interest_rate, min_payment),
            ", "@,
        ) + " WHERE id = ?"@,
        statement.bound() == debt_update_values(debt_id, balance, interest_rate, min_payment),
{
    // Build update query dynamically
    let mut updates: Vec<String> = Vec::new();
    let mut parameters: Vec<SqlValue> = Vec::new();
    if let Some(bal) = balance {
        updates.push("balance = ?".to_owned());
        parameters.push(SqlValue::Decimal(bal));
    }
    if let Some(rate) = interest_rate {
        updates.push("interest_rate = ?".to_owned());
        parameters.push(SqlValue::Decimal(rate));
    }
    if let Some(payment) = min_payment {
        updates.push("min_payment = ?".to_owned());
        parameters.push(SqlValue::Decimal(payment));
    }
    updates.push("updated_at = CURRENT_TIMESTAMP".to_owned());
    parameters.push(SqlValue::Integer(debt_id));
    proof {
        assert(texts(updates@) =~= debt_update_assignments(balance, interest_rate, min_payment));
    }
    let statement = Statement {
        sql: join3("UPDATE debts SET ", join_all(&updates, ", ").as_str(), " WHERE id = ?"),
        parameters,
    };
    proof {
        assert(statement.bound() =~= debt_update_values(debt_id, balance, interest_rate, min_payment));
    }
    statement
}

// ===== plans =====

/// What is wrong with a debt that is to be planned, if anything: the balance is looked at
/// first, then the minimum payment, then the interest rate.
pub open spec fn debt_problem(debt: Debt) -> Option<DebtError> {
    if debt.balance < 0 {
        Some(DebtError::InvalidBalance(debt.balance))
    } else if debt.min_payment < 0 {
        Some(DebtError::InvalidMinPayment(debt.min_payment))
    } else if debt.interest_rate < MIN_INTEREST_RATE || debt.interest_rate > MAX_INTEREST_RATE {
        Some(
            DebtError::InvalidInterestRate {
                min: MIN_INTEREST_RATE,
                max: MAX_INTEREST_RATE,
                actual: debt.interest_rate,
            },
        )
    } else {
        None
    }
}

/// What is wrong with the first debt with which something is wrong, if there is one.
pub open spec fn debts_problem(debts: Seq<Debt>) -> Option<DebtError>
    decreases debts.len(),
{
    if debts.len() == 0 {
        None
    } else {
        match debts_problem(debts.drop_last()) {
            Some(e) => Some(e),
            None => debt_problem(debts.last()),
        }
    }
}

/// Nothing is wrong with the debts exactly if the planner is made for all of them.
pub proof fn lemma_debts_problem(debts: Seq<Debt>)
    ensures
        debts_problem(debts) is None <==> all_plannable(debts),
    decreases debts.len(),
{
    if debts.len() > 0 {
        lemma_debts_problem(debts.drop_last());
        if all_plannable(debts) {
            assert forall|i: int| 0 <= i < debts.drop_last().len() implies (#[trigger] debts.drop_last()[i]).is_plannable() by {
                assert(debts[i].is_plannable());
            }
            assert(debts[debts.len() - 1].is_plannable());
        }
        if debts_problem(debts) is None {
            assert forall|i: int| 0 <= i < debts.len() implies (#[trigger] debts[i]).is_plannable() by {
                if i < debts.len() - 1 {
                    assert(debts.drop_last()[i].is_plannable());
                }
            }
        }
    }
}

/// What is wrong with some of the first debts is what is wrong with the debts.
proof fn lemma_first_problem_stays(debts: Seq<Debt>, upto: int)
    requires
        0 <= upto <= debts.len(),
        debts_problem(debts.take(upto)) is Some,
    ensures
        debts_problem(debts) == debts_problem(debts.take(upto)),
    decreases debts.len() - upto,
{
    if upto == debts.len() {
        assert(debts.take(upto) =~= debts);
    } else {
        assert(debts.take(upto + 1).drop_last() =~= debts.take(upto));
        lemma_first_problem_stays(debts, upto + 1);
    }
}

/// Checks that the planner is made for the debts: that no balance and no minimum payment
/// is negative, and that every rate lies between 0% and 100%.
pub fn validate_debts(debts: &Vec<Debt>) -> (result: Result<(), DebtError>)
    ensures
        match result {
            Ok(_) => all_plannable(debts@) && debts_problem(debts@) is None,
            Err(e) => debts_problem(debts@) == Some(e) && !all_plannable(debts@),
        },
{
    let mut i: usize = 0;
    proof {
        lemma_debts_problem(debts@);
        assert(debts@.take(0) =~= Seq::<Debt>::empty());
    }
    while i < debts.len()
        invariant
            i <= debts.len(),
            debts_problem(debts@.take(i as int)) is None,
            debts_problem(debts@) is None <==> all_plannable(debts@),
        decreases debts.len() - i,
    {
        let debt = &debts[i];
        proof {
            assert(debts@.take(i as int + 1).drop_last() =~= debts@.take(i as int));
            assert(debts@.take(i as int + 1).last() == debts@[i as int]);
        }
        if debt.balance < 0 {
            proof {
                lemma_first_problem_stays(debts@, i as int + 1);
            }
            return Err(DebtError::InvalidBalance(debt.balance));
        }
        if debt.min_payment < 0 {
            proof {
                lemma_first_problem_stays(debts@, i as int + 1);
            }
            return Err(DebtError::InvalidMinPayment(debt.min_payment));
        }
        if debt.interest_rate < MIN_INTEREST_RATE || debt.interest_rate > MAX_INTEREST_RATE {
            proof {
                lemma_first_problem_stays(debts@, i as int + 1);
            }
            return Err(
                DebtError::InvalidInterestRate {
                    min: MIN_INTEREST_RATE,
                    max: MAX_INTEREST_RATE,
                    actual: debt.interest_rate,
                },
            );
        }
        i += 1;
    }
    proof {
        assert(debts@.take(debts.len() as int) =~= debts@);
    }
    Ok(())
}

/// The result is what planning under a named strategy gives: a name that is not a
/// strategy's is refused first, then debts for which the planner is not made; else the
/// debts are planned.
pub open spec fn reports_by_name(
    result: Result<PayoffPlan, DebtError>,
    strategy: Seq<char>,
    monthly_amount: int,
    debts: Seq<Debt>,
    start: int,
) -> bool {
    match PayoffStrategy::named(strategy) {
        None => result matches Err(DebtError::InvalidStrategy(given)) && given@ == strategy,
        Some(chosen) => match debts_problem(debts) {
            Some(e) => result == Err::<PayoffPlan, DebtError>(e),
            None => reports(result, planned(chosen, monthly_amount, debts, start)),
        },
    }
}

/// Plans the payoff of the debts read from the store under the strategy named. With no
/// debts there is nothing to plan, whatever the strategy; a name that is not a strategy's is
/// refused before anything is planned, and so are debts for which the planner is not made.
pub fn calculate_payoff_plan_impl(debts: &Vec<Debt>, strategy: String, monthly_amount: i64, start: CalendarDay) -> (result:
    Result<PayoffPlan, DebtError>)
    ensures
        debts.len() == 0 ==> result matches Err(DebtError::NoDebts),
        debts.len() > 0 ==> reports_by_name(result, strategy@, monthly_amount as int, debts@, start@),
{
    if debts.len() == 0 {
        return Err(DebtError::NoDebts);
    }
    get_payoff_plan_impl(debts, strategy, monthly_amount, start)
}

/// Plans anew for a plan that was saved with the strategy's name and the monthly amount:
/// the name is read first, and the debts are planned as they are now.
pub fn get_payoff_plan_impl(debts: &Vec<Debt>, strategy: String, monthly_amount: i64, start: CalendarDay) -> (result:
    Result<PayoffPlan, DebtError>)
    ensures
        reports_by_name(result, strategy@, monthly_amount as int, debts@, start@),
{
    match PayoffStrategy::parse(strategy.as_str()) {
        Ok(chosen) => match validate_debts(debts) {
            Ok(_) => plan_payoff(chosen, debts, monthly_amount, start),
            Err(e) => Err(e),
        },
        Err(e) => Err(e),
    }
}

/// What one plan is set against another by.
pub fn strategy_comparison(plan: &PayoffPlan) -> (comparison: StrategyComparison)
    requires
        plan.monthly_breakdown.len() <= i32::MAX,
    ensures
        comparison.strategy@ == plan.strategy@,
        comparison.payoff_date@ == plan.payoff_date@,
        comparison.total_interest == plan.total_interest,
        comparison.payoff_months == plan.monthly_breakdown.len(),
{
    StrategyComparison {
        strategy: plan.strategy.clone(),
        payoff_date: plan.payoff_date.clone(),
        total_interest: plan.total_interest,
        payoff_months: plan.monthly_breakdown.len() as i32,
    }
}

/// What the avalanche plan saves over the snowball plan: the interest and the months by which
/// the snowball plan exceeds it, and nothing where it does not.
pub fn savings(avalanche: &StrategyComparison, snowball: &StrategyComparison) -> (saved: ComparisonSavings)
    requires
        avalanche.total_interest >= 0,
        snowball.total_interest >= 0,
        avalanche.payoff_months >= 0,
        snowball.payoff_months >= 0,
    ensures
        saved.interest_saved == (if snowball.total_interest > avalanche.total_interest {
            snowball.total_interest - avalanche.total_interest
        } else {
            0
        }),
        saved.months_saved == (if snowball.payoff_months > avalanche.payoff_months {
            snowball.payoff_months - avalanche.payoff_months
        } else {
            0
        }),
{
    let interest_saved = snowball.total_interest - avalanche.total_interest;
    let months_saved = snowball.payoff_months - avalanche.payoff_months;
    ComparisonSavings {
        interest_saved: if interest_saved > 0 {
            interest_saved
        } else {
            0
        },
        months_saved: if months_saved > 0 {
            months_saved
        } else {
            0
        },
    }
}

/// Plans the payoff of the debts under both strategies and sets the plans against each
/// other. With no debts there is nothing to compare, and debts for which the planner is not
/// made are refused; if either plan is refused, so is the comparison, the avalanche plan
/// being made first.
pub fn compare_strategies_impl(debts: &Vec<Debt>, monthly_amount: i64, start: CalendarDay) -> (result: Result<
    CompareStrategiesResponse,
    DebtError,
>)
    ensures
        debts.len() > 0 && debts_problem(debts@) is Some ==> result == Err::<CompareStrategiesResponse, DebtError>(
            debts_problem(debts@)->0,
        ),
        debts.len() == 0 || debts_problem(debts@) is None ==> match (
            planned(PayoffStrategy::Avalanche, monthly_amount as int, debts@, start@),
            planned(PayoffStrategy::Snowball, monthly_amount as int, debts@, start@),
        ) {
            (Ok(avalanche), Ok(snowball)) => {
                &&& result matches Ok(response)
                &&& response.avalanche.strategy@ == "avalanche"@
                &&& response.avalanche.payoff_date@ == avalanche.payoff_date
                &&& response.avalanche.total_interest == avalanche.total_interest
                &&& response.avalanche.payoff_months == avalanche.months.len()
                &&& response.snowball.strategy@ == "snowball"@
                &&& response.snowball.payoff_date@ == snowball.payoff_date
                &&& response.snowball.total_interest == snowball.total_interest
                &&& response.snowball.payoff_months == snowball.months.len()
                &&& response.savings.interest_saved == (if snowball.total_interest > avalanche.total_interest {
                    snowball.total_interest - avalanche.total_interest
                } else {
                    0
                })
                &&& response.savings.months_saved == (if snowball.months.len() > avalanche.months.len() {
                    snowball.months.len() - avalanche.months.len()
                } else {
                    0
                })
            },
            (Err(rejection), _) => reports(Err(result->Err_0), Err(rejection)) && result is Err,
            (Ok(_), Err(rejection)) => reports(Err(result->Err_0), Err(rejection)) && result is Err,
        },
{
    if debts.len() == 0 {
        return Err(DebtError::NoDebts);
    }
    match validate_debts(debts) {
        Ok(_) => {},
        Err(e) => {
            return Err(e);
        },
    }
    let avalanche_plan = match plan_payoff(PayoffStrategy::Avalanche, debts, monthly_amount, start) {
        Ok(plan) => plan,
        Err(e) => {
            return Err(e);
        },
    };
    let snowball_plan = match plan_payoff(PayoffStrategy::Snowball, debts, monthly_amount, start) {
        Ok(plan) => plan,
        Err(e) => {
            return Err(e);
        },
    };
    proof {
        lemma_plan_is_consistent(PayoffStrategy::Avalanche, monthly_amount as int, debts@, start@);
        lemma_plan_is_consistent(PayoffStrategy::Snowball, monthly_amount as int, debts@, start@);
    }
    let avalanche = strategy_comparison(&avalanche_plan);
    let snowball = strategy_comparison(&snowball_plan);
    let savings = savings(&avalanche, &snowball);
    Ok(CompareStrategiesResponse { avalanche, snowball, savings })
}

// ===== payments =====

/// Checks that a payment is of a positive amount.
pub fn validate_payment_amount(amount: i64) -> (result: Result<(), DebtError>)
    ensures
        amount > 0 ==> result is Ok,
        amount <= 0 ==> result == Err::<(), DebtError>(DebtError::InvalidPaymentAmount(amount)),
{
    if amount <= 0 {
        return Err(DebtError::InvalidPaymentAmount(amount));
    }
    Ok(())
}

/// The balance that a payment leaves of a debt. A payment that is not positive is refused,
/// and so is one that exceeds the balance.
pub fn record_debt_payment_impl(balance: i64, amount: i64) -> (result: Result<i64, DebtError>)
    ensures
        amount <= 0 ==> result == Err::<i64, DebtError>(DebtError::InvalidPaymentAmount(amount)),
        0 < amount && amount > balance ==> result == Err::<i64, DebtError>(
            DebtError::PaymentExceedsBalance { payment: amount, balance },
        ),
        0 < amount <= balance ==> result == Ok::<i64, DebtError>((balance - amount) as i64),
{
    if amount <= 0 {
        return Err(DebtError::InvalidPaymentAmount(amount));
    }
    if amount > balance {
        return Err(DebtError::PaymentExceedsBalance { payment: amount, balance });
    }
    // Update debt balance
    Ok(balance - amount)
}

/// The amounts of the payments.
pub open spec fn payment_amounts(payments: Seq<DebtPayment>) -> Seq<int> {
    payments.map_values(|p: DebtPayment| p.amount as int)
}

/// What is left of the original balance after the first `count` payments, and nothing if
/// they exceed it.
pub open spec fn balance_after_payments(original_balance: int, payments: Seq<DebtPayment>, count: int) -> int {
    let left = original_balance - sum(payment_amounts(payments).take(count));
    if left > 0 {
        left
    } else {
        0
    }
}

/// The progress of a debt: what its payments come to, and the balance that each payment
/// left of the original balance, the payments taken in the order given.
pub fn get_debt_progress_impl(debt: Debt, payments: Vec<DebtPayment>) -> (progress: DebtProgressResponse)
    ensures
        progress.debt == debt,
        progress.payments == payments,
        progress.total_paid == sum(payment_amounts(payments@)),
        progress.balance_history.len() == payments.len(),
        forall|k: int|
            0 <= k < payments.len() ==> (#[trigger] progress.balance_history[k]).date@ == payments[k].date@
                && progress.balance_history[k].balance == balance_after_payments(
                debt.original_balance as int,
                payments@,
                k + 1,
            ),
{
    let mut total_paid: i128 = 0;
    // Build balance history from payments
    let mut balance_history: Vec<BalancePoint> = Vec::new();
    let mut i: usize = 0;
    proof {
        assert(payment_amounts(payments@).take(0) =~= Seq::<int>::empty());
    }
    while i < payments.len()
        invariant
            i <= payments.len(),
            balance_history.len() == i,
            total_paid == sum(payment_amounts(payments@).take(i as int)),
            -(i as int) * 0x8000_0000_0000_0000 <= total_paid <= i as int * 0x8000_0000_0000_0000,
            forall|k: int|
                0 <= k < i ==> (#[trigger] balance_history[k]).date@ == payments[k].date@
                    && balance_history[k].balance == balance_after_payments(
                    debt.original_balance as int,
                    payments@,
                    k + 1,
                ),
        decreases payments.len() - i,
    {
        proof {
            lemma_sum_take_step(payment_amounts(payments@), i as int);
            let wide = i as int;
            assert(wide * 0x8000_0000_0000_0000 <= 0xffff_ffff_ffff_ffff * 0x8000_0000_0000_0000)
                by (nonlinear_arith)
                requires
                    0 <= wide <= 0xffff_ffff_ffff_ffff,
            ;
            assert((wide + 1) * 0x8000_0000_0000_0000 == wide * 0x8000_0000_0000_0000
                + 0x8000_0000_0000_0000) by (nonlinear_arith);
        }
        total_paid = total_paid + payments[i].amount as i128;
        let current_balance: i128 = debt.original_balance as i128 - total_paid;
        balance_history.push(
            BalancePoint {
                date: payments[i].date.clone(),
                balance: if current_balance > 0 {
                    current_balance
                } else {
                    0
                },
            },
        );
        i += 1;
    }
    proof {
        assert(payment_amounts(payments@).take(payments.len() as int) =~= payment_amounts(payments@));
    }
    DebtProgressResponse { debt, payments, total_paid, balance_history }
}

} // verus!
