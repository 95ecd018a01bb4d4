use vstd::prelude::*;
use crate::calendar::CalendarDay;
use crate::constants::{
    MAX_PAYOFF_MONTHS, MAX_PAYOFF_YEARS, MONTHLY_RATE_DIVISOR, ZERO_BALANCE_THRESHOLD,
};
use crate::errors::DebtError;
use crate::models::debt::{Debt, PayoffStrategy};
use crate::services::avalanche_calculator::{
    DebtPaymentDetail, DebtSummary, month_models, MonthlyPayment, payment_models, PayoffPlan,
};
use crate::services::payoff_lemmas::{
    lemma_accrue, lemma_accrued_interest_bounds, lemma_minimum_due_bounds, lemma_month,
    lemma_monthly_order_keeps, lemma_order_keeps, lemma_pay_minimums,
    lemma_run_fails_beyond_payable,
};
use crate::services::payoff_model::{
    accruals, accrue, accrue_one, all_paid, all_well_formed, assembled, balances, comes_before,
    DebtModel, dues, extra_amount, first_active, initial_states, interests, is_active,
    merge_payment, minimum_due, minimum_payments, minimums, month_date_text, month_end,
    month_payments, month_record, monthly_order, MonthModel, Outcome, pay_minimum, pay_minimums,
    PaymentModel, PlanModel, planned, Rejection, run, serviceable, settle, stable_sort, summary_of,
    total_accrued, total_balance, total_due, total_interest_paid, total_min_payments, total_paid,
    well_formed,
};
use crate::services::summation::{
    lemma_first_where_is, lemma_sum_below, lemma_sum_bounds_term, lemma_sum_nonnegative,
    lemma_sum_take_le, lemma_sum_take_step, sum,
};

verus! {

/// One debt of the working set, as the simulation changes it from month to month.
#[derive(Debug)]
pub struct DebtState {
    pub id: i64,
    pub name: String,
    pub balance: i128,
    pub interest_rate: i64,
    pub min_payment: i64,
    pub total_interest_paid: i128,
    pub payoff_month: Option<i32>,
}

impl View for DebtState {
    type V = DebtModel;

    open spec fn view(&self) -> DebtModel {
        DebtModel {
            id: self.id as int,
            name: self.name@,
            balance: self.balance as int,
            interest_rate: self.interest_rate as int,
            min_payment: self.min_payment as int,
            total_interest_paid: self.total_interest_paid as int,
            payoff_month: match self.payoff_month {
                Some(m) => Some(m as int),
                None => None,
            },
        }
    }
}

/// The working set as contracts speak of it.
pub open spec fn models(v: Seq<DebtState>) -> Seq<DebtModel> {
    v.map_values(|d: DebtState| d@)
}

/// The largest total balance with which a month of the simulation is entered: 2^80.
pub const BALANCE_LIMIT: i128 = 0x1_0000_0000_0000_0000_0000;

/// The largest interest total of one debt with which a month is entered: 2^100.
pub const INTEREST_LIMIT: i128 = 0x10_0000_0000_0000_0000_0000_0000;

/// A working set whose next month can be computed in machine integers.
pub open spec fn computable(s: Seq<DebtModel>) -> bool {
    &&& all_well_formed(s)
    &&& total_balance(s) <= BALANCE_LIMIT
    &&& total_interest_paid(s) <= INTEREST_LIMIT
}

/// The interest paid on one debt is no more than the interest paid on all.
proof fn lemma_interest_within_total(s: Seq<DebtModel>, i: int)
    requires
        all_well_formed(s),
        0 <= i < s.len(),
    ensures
        0 <= s[i].total_interest_paid <= total_interest_paid(s),
{
    assert forall|k: int| 0 <= k < interests(s).len() implies interests(s)[k] >= 0 by {
        assert(well_formed(s[k]));
    }
    lemma_sum_bounds_term(interests(s), i);
}

/// What one debt owes is no more than what is owed in all.
proof fn lemma_balance_within_total(s: Seq<DebtModel>, i: int)
    requires
        all_well_formed(s),
        0 <= i < s.len(),
    ensures
        0 <= s[i].balance <= total_balance(s),
{
    assert forall|k: int| 0 <= k < balances(s).len() implies balances(s)[k] >= 0 by {
        assert(well_formed(s[k]));
    }
    lemma_sum_bounds_term(balances(s), i);
}

/// Adds a month's interest to every debt still owed; returns the interest added in all.
fn accrue_interest(states: &mut Vec<DebtState>) -> (added: i128)
    requires
        computable(models(old(states)@)),
    ensures
        models(final(states)@) == accrue(models(old(states)@)),
        added == total_accrued(models(old(states)@)),
{
    let n = states.len();
    let ghost before = models(states@);
    let mut added: i128 = 0;
    let mut i: usize = 0;
    proof {
        lemma_accrue(before);
        assert(accruals(before).take(0) =~= Seq::<int>::empty());
    }
    while i < n
        invariant
            i <= n,
            states.len() == n,
            before.len() == n,
            before == models(old(states)@),
            computable(before),
            forall|k: int| 0 <= k < i ==> (#[trigger] states[k])@ == accrue_one(before[k]),
            forall|k: int| i <= k < n ==> (#[trigger] states[k])@ == before[k],
            added == sum(accruals(before).take(i as int)),
            0 <= added <= total_accrued(before) <= BALANCE_LIMIT,
        decreases n - i,
    {
        proof {
            assert(well_formed(before[i as int]));
            lemma_balance_within_total(before, i as int);
            lemma_interest_within_total(before, i as int);
            lemma_accrued_interest_bounds(before[i as int]);
            lemma_sum_take_step(accruals(before), i as int);
            assert forall|k: int| 0 <= k < accruals(before).len() implies accruals(before)[k] >= 0 by {
                assert(well_formed(before[k]));
                lemma_accrued_interest_bounds(before[k]);
            }
            lemma_sum_take_le(accruals(before), i as int + 1);
        }
        if states[i].balance >= ZERO_BALANCE_THRESHOLD as i128 {
            let balance = states[i].balance;
            let rate = states[i].interest_rate as i128;
            assert(0 <= balance * rate <= 0x1_0000_0000_0000_0000_0000 * 100_000_000) by (nonlinear_arith)
                requires
                    0 <= balance <= 0x1_0000_0000_0000_0000_0000,
                    0 <= rate <= 100_000_000,
            ;
            let interest = (balance * rate) / (MONTHLY_RATE_DIVISOR as i128);
            states[i].balance = balance + interest;
            states[i].total_interest_paid = states[i].total_interest_paid + interest;
            added = added + interest;
        }
        i += 1;
    }
    proof {
        assert(accruals(before).take(n as int) =~= accruals(before));
        assert(models(states@) =~= accrue(before));
    }
    added
}

/// Pays every debt still owed its minimum; returns the payment records and their total.
fn pay_minimum_payments(states: &mut Vec<DebtState>, month: i32) -> (out: (Vec<DebtPaymentDetail>, i128))
    requires
        all_well_formed(models(old(states)@)),
        total_balance(models(old(states)@)) <= 2 * BALANCE_LIMIT,
    ensures
        models(final(states)@) == pay_minimums(models(old(states)@), month as int),
        payment_models(out.0@) == minimum_payments(models(old(states)@)),
        out.1 == total_due(models(old(states)@)),
        forall|k: int| 0 <= k < out.0.len() ==> 0 <= (#[trigger] out.0[k]).amount <= 2 * BALANCE_LIMIT,
{
    let n = states.len();
    let ghost before = models(states@);
    let mut payments: Vec<DebtPaymentDetail> = Vec::new();
    let mut paid_total: i128 = 0;
    let mut i: usize = 0;
    proof {
        lemma_pay_minimums(before, month as int);
        assert(dues(before).take(0) =~= Seq::<int>::empty());
        assert(before.take(0) =~= Seq::<DebtModel>::empty());
        assert(payment_models(payments@) =~= minimum_payments(before.take(0)));
    }
    while i < n
        invariant
            i <= n,
            states.len() == n,
            before.len() == n,
            before == models(old(states)@),
            all_well_formed(before),
            total_balance(before) <= 2 * BALANCE_LIMIT,
            forall|k: int| 0 <= k < i ==> (#[trigger] states[k])@ == pay_minimum(before[k], month as int),
            forall|k: int| i <= k < n ==> (#[trigger] states[k])@ == before[k],
            payment_models(payments@) == minimum_payments(before.take(i as int)),
            paid_total == sum(dues(before).take(i as int)),
            0 <= paid_total <= total_due(before) <= total_balance(before),
            forall|k: int| 0 <= k < payments.len() ==> 0 <= (#[trigger] payments[k]).amount <= 2 * BALANCE_LIMIT,
        decreases n - i,
    {
        proof {
            assert(well_formed(before[i as int]));
            lemma_balance_within_total(before, i as int);
            lemma_minimum_due_bounds(before[i as int]);
            lemma_sum_take_step(dues(before), i as int);
            assert forall|k: int| 0 <= k < dues(before).len() implies dues(before)[k] >= 0 by {
                assert(well_formed(before[k]));
                lemma_minimum_due_bounds(before[k]);
            }
            lemma_sum_take_le(dues(before), i as int + 1);
            assert(before.take(i as int + 1).drop_last() =~= before.take(i as int));
            assert(before.take(i as int + 1).last() == before[i as int]);
        }
        if states[i].balance >= ZERO_BALANCE_THRESHOLD as i128 {
            let minimum = states[i].min_payment as i128;
            let payment = if minimum <= states[i].balance {
                minimum
            } else {
                states[i].balance
            };
            states[i].balance = states[i].balance - payment;
            paid_total = paid_total + payment;
            let ghost recorded = payment_models(payments@);
            payments.push(
                DebtPaymentDetail { debt_id: states[i].id, debt_name: states[i].name.clone(), amount: payment },
            );
            proof {
                assert(payment_models(payments@) =~= recorded.push(
                    PaymentModel {
                        debt_id: before[i as int].id,
                        debt_name: before[i as int].name,
                        amount: minimum_due(before[i as int]),
                    },
                ));
            }
            if states[i].balance < ZERO_BALANCE_THRESHOLD as i128 && states[i].payoff_month.is_none() {
                states[i].payoff_month = Some(month);
            }
        }
        i += 1;
    }
    proof {
        assert(dues(before).take(n as int) =~= dues(before));
        assert(before.take(n as int) =~= before);
        assert(models(states@) =~= pay_minimums(before, month as int));
    }
    (payments, paid_total)
}

/// Gives the surplus to the first debt still owed, if there is one, and adds the payment to
/// the month's records; returns what was paid.
fn allocate_surplus(
    states: &mut Vec<DebtState>,
    payments: &mut Vec<DebtPaymentDetail>,
    surplus: i128,
    month: i32,
) -> (extra: i128)
    requires
        all_well_formed(models(old(states)@)),
        total_balance(models(old(states)@)) <= 2 * BALANCE_LIMIT,
        0 <= surplus <= i64::MAX,
        forall|k: int| 0 <= k < old(payments).len() ==> 0 <= (#[trigger] old(payments)[k]).amount <= 2 * BALANCE_LIMIT,
    ensures
        ({
            let before = models(old(states)@);
            let at = first_active(before);
            if at < before.len() {
                &&& extra == extra_amount(before[at], surplus as int)
                &&& models(final(states)@) == before.update(at, settle(before[at], extra as int, month as int))
                &&& payment_models(final(payments)@) == merge_payment(
                    payment_models(old(payments)@),
                    PaymentModel { debt_id: before[at].id, debt_name: before[at].name, amount: extra as int },
                )
            } else {
                &&& extra == 0
                &&& models(final(states)@) == before
                &&& payment_models(final(payments)@) == payment_models(old(payments)@)
            }
        }),
{
    let n = states.len();
    let ghost before = models(states@);
    let ghost recorded = payment_models(payments@);
    let mut at: usize = 0;
    while at < n && states[at].balance < ZERO_BALANCE_THRESHOLD as i128
        invariant
            at <= n,
            states.len() == n,
            states@ == old(states)@,
            forall|k: int| 0 <= k < at ==> !is_active(#[trigger] before[k]),
            before == models(states@),
        decreases n - at,
    {
        at += 1;
    }
    proof {
        lemma_first_where_is(before, |d: DebtModel| is_active(d), at as int);
    }
    if at < n {
        proof {
            assert(well_formed(before[at as int]));
            lemma_balance_within_total(before, at as int);
        }
        let extra = if surplus <= states[at].balance {
            surplus
        } else {
            states[at].balance
        };
        states[at].balance = states[at].balance - extra;
        let m = payments.len();
        let id = states[at].id;
        let mut j: usize = 0;
        while j < m && payments[j].debt_id != id
            invariant
                j <= m,
                payments.len() == m,
                payments@ == old(payments)@,
                recorded == payment_models(payments@),
                forall|k: int| 0 <= k < j ==> (#[trigger] recorded[k]).debt_id != id,
            decreases m - j,
        {
            j += 1;
        }
        proof {
            lemma_first_where_is(recorded, |p: PaymentModel| p.debt_id == id as int, j as int);
        }
        if j < m {
            payments[j].amount = payments[j].amount + extra;
            proof {
                assert(payment_models(payments@) =~= recorded.update(
                    j as int,
                    PaymentModel { amount: recorded[j as int].amount + extra, ..recorded[j as int] },
                ));
            }
        } else {
            payments.push(DebtPaymentDetail { debt_id: id, debt_name: states[at].name.clone(), amount: extra });
            proof {
                assert(payment_models(payments@) =~= recorded.push(
                    PaymentModel { debt_id: id as int, debt_name: before[at as int].name, amount: extra as int },
                ));
            }
        }
        if states[at].balance < ZERO_BALANCE_THRESHOLD as i128 && states[at].payoff_month.is_none() {
            states[at].payoff_month = Some(month);
        }
        proof {
            assert(models(states@) =~= before.update(
                at as int,
                settle(before[at as int], extra as int, month as int),
            ));
        }
        extra
    } else {
        0
    }
}

/// Tells whether `a` has to stand before `b`.
fn stands_before(strategy: PayoffStrategy, a: &DebtState, b: &DebtState) -> (before: bool)
    ensures
        before == comes_before(strategy, a@, b@),
{
    match strategy {
        PayoffStrategy::Avalanche => a.interest_rate > b.interest_rate,
        PayoffStrategy::Snowball => a.balance >= ZERO_BALANCE_THRESHOLD as i128 && (b.balance
            < ZERO_BALANCE_THRESHOLD as i128 || a.balance < b.balance),
    }
}

/// Sorts the working set into the strategy's order; debts of equal rank keep their order.
pub fn sort_states(strategy: PayoffStrategy, states: Vec<DebtState>) -> (sorted: Vec<DebtState>)
    ensures
        models(sorted@) == stable_sort(strategy, models(states@)),
{
    let ghost original = models(states@);
    let n = states.len();
    let mut rest = states;
    let mut sorted: Vec<DebtState> = Vec::new();
    let mut i: usize = 0;
    proof {
        assert(original.take(0) =~= Seq::<DebtModel>::empty());
        assert(models(sorted@) =~= stable_sort(strategy, original.take(0)));
        assert(models(rest@) =~= original.skip(0));
    }
    while i < n
        invariant
            i <= n,
            original.len() == n,
            rest.len() == n - i,
            models(rest@) == original.skip(i as int),
            models(sorted@) == stable_sort(strategy, original.take(i as int)),
        decreases n - i,
    {
        let ghost placed = models(sorted@);
        let ghost held = rest@;
        let next = rest.remove(0);
        proof {
            assert(next@ == models(held)[0]);
            assert(original.skip(i as int)[0] == original[i as int]);
            assert forall|k: int| 0 <= k < rest.len() implies #[trigger] models(rest@)[k] == original.skip(
                i as int + 1,
            )[k] by {
                assert(rest@[k] == held[k + 1]);
                assert(models(held)[k + 1] == original.skip(i as int)[k + 1]);
            }
            assert(models(rest@) =~= original.skip(i as int + 1));
        }
        let m = sorted.len();
        let mut j: usize = 0;
        while j < m && !stands_before(strategy, &next, &sorted[j])
            invariant
                j <= m,
                sorted.len() == m,
                placed == models(sorted@),
                forall|k: int| 0 <= k < j ==> !comes_before(strategy, next@, #[trigger] placed[k]),
            decreases m - j,
        {
            j += 1;
        }
        proof {
            lemma_first_where_is(placed, |e: DebtModel| comes_before(strategy, next@, e), j as int);
            assert(original.take(i as int + 1).drop_last() =~= original.take(i as int));
            assert(original.take(i as int + 1).last() == original[i as int]);
        }
        sorted.insert(j, next);
        proof {
            assert(models(sorted@) =~= placed.insert(j as int, original[i as int]));
        }
        i += 1;
    }
    proof {
        assert(original.take(n as int) =~= original);
    }
    sorted
}

/// Tells whether nothing is owed any more.
fn nothing_owed(states: &Vec<DebtState>) -> (done: bool)
    ensures
        done == all_paid(models(states@)),
{
    let n = states.len();
    let mut i: usize = 0;
    while i < n
        invariant
            i <= n,
            states.len() == n,
            forall|k: int| 0 <= k < i ==> !is_active(#[trigger] models(states@)[k]),
        decreases n - i,
    {
        if states[i].balance >= ZERO_BALANCE_THRESHOLD as i128 {
            assert(is_active(models(states@)[i as int]));
            return false;
        }
        i += 1;
    }
    true
}

/// What one simulated month leaves behind.
pub struct MonthResult {
    pub payments: Vec<DebtPaymentDetail>,
    pub total_paid: i128,
    pub remaining_balance: i128,
    pub interest_added: i128,
}

/// Simulates one month on a working set that is in the month's order: interest, minimum
/// payments, then the surplus to the first debt still owed.
fn simulate_month(states: &mut Vec<DebtState>, budget: i64, month: i32, total: i128) -> (out: MonthResult)
    requires
        computable(models(old(states)@)),
        serviceable(models(old(states)@), budget as int),
        total == total_balance(models(old(states)@)),
    ensures
        models(final(states)@) == month_end(models(old(states)@), budget as int, month as int),
        payment_models(out.payments@) == month_payments(models(old(states)@), budget as int, month as int),
        out.total_paid == total_paid(month_payments(models(old(states)@), budget as int, month as int)),
        out.remaining_balance == total_balance(month_end(models(old(states)@), budget as int, month as int)),
        out.interest_added == total_accrued(models(old(states)@)),
{
    let ghost ordered = models(states@);
    proof {
        lemma_month(ordered, budget as int, month as int);
        lemma_accrue(ordered);
        lemma_pay_minimums(accrue(ordered), month as int);
    }
    let interest_added = accrue_interest(states);
    let (mut payments, paid) = pay_minimum_payments(states, month);
    let surplus = budget as i128 - paid;
    let mut extra: i128 = 0;
    if surplus > ZERO_BALANCE_THRESHOLD as i128 {
        extra = allocate_surplus(states, &mut payments, surplus, month);
    }
    MonthResult {
        payments,
        total_paid: paid + extra,
        remaining_balance: total + interest_added - paid - extra,
        interest_added,
    }
}

/// A completed simulation.
pub struct Completed {
    pub states: Vec<DebtState>,
    pub months: Vec<MonthlyPayment>,
    pub total_interest: i128,
}

/// The months carry the dates of a plan that began on day `start`.
pub open spec fn dated(months: Seq<MonthlyPayment>, start: int) -> bool {
    forall|k: int| 0 <= k < months.len() ==> (#[trigger] months[k]).date@ == month_date_text(start, k + 1)
}

/// Simulates month after month until nothing is owed. Gives `None` if something is still
/// owed after the last allowed month; a working set that owes more than the remaining months
/// can pay is given up at once.
fn run_months(
    strategy: PayoffStrategy,
    budget: i64,
    working: Vec<DebtState>,
    start: CalendarDay,
    opening_total: i128,
) -> (out: Option<Completed>)
    requires
        serviceable(models(working@), budget as int),
        opening_total == total_balance(models(working@)),
        total_interest_paid(models(working@)) == 0,
    ensures
        match run(strategy, budget as int, models(working@), 1, Seq::empty()) {
            Outcome::Complete { states: s, months: m } => {
                &&& out matches Some(done)
                &&& models(done.states@) == s
                &&& month_models(done.months@) == m
                &&& dated(done.months@, start@)
                &&& done.total_interest == total_interest_paid(s)
            },
            Outcome::Failed => out is None,
        },
{
    let ghost opening = models(working@);
    let mut states = working;
    let mut months: Vec<MonthlyPayment> = Vec::new();
    let mut month: i32 = 1;
    let mut total = opening_total;
    let mut interest_total: i128 = 0;
    proof {
        assert(month_models(months@) =~= Seq::<MonthModel>::empty());
        assert forall|k: int| 0 <= k < minimums(opening).len() implies minimums(opening)[k] >= 0 by {
            assert(well_formed(opening[k]));
        }
        lemma_sum_nonnegative(minimums(opening));
    }
    loop
        invariant
            1 <= month <= MAX_PAYOFF_MONTHS + 1,
            budget >= 0,
            opening == models(working@),
            months.len() == month - 1,
            serviceable(models(states@), budget as int),
            total == total_balance(models(states@)),
            interest_total == total_interest_paid(models(states@)),
            0 <= interest_total <= (month - 1) * BALANCE_LIMIT,
            dated(months@, start@),
            run(strategy, budget as int, opening, 1, Seq::empty()) == run(
                strategy,
                budget as int,
                models(states@),
                month as int,
                month_models(months@),
            ),
        decreases MAX_PAYOFF_MONTHS + 1 - month,
    {
        if nothing_owed(&states) {
            return Some(Completed { states, months, total_interest: interest_total });
        }
        if month > MAX_PAYOFF_MONTHS {
            return None;
        }
        let count = states.len() as i128;
        let months_left = (MAX_PAYOFF_MONTHS + 1 - month) as i128;
        let wide_budget = budget as i128;
        assert(0 <= months_left * wide_budget <= 1200 * 0x7fff_ffff_ffff_ffff) by (nonlinear_arith)
            requires
                0 <= months_left <= 1200,
                0 <= wide_budget <= 0x7fff_ffff_ffff_ffff,
        ;
        assert(0 <= count * 10_000 <= 0xffff_ffff_ffff_ffff * 10_000) by (nonlinear_arith)
            requires
                0 <= count <= 0xffff_ffff_ffff_ffff,
        ;
        let limit = count * (ZERO_BALANCE_THRESHOLD as i128) + months_left * wide_budget;
        if total > limit {
            proof {
                lemma_run_fails_beyond_payable(
                    strategy,
                    budget as int,
                    models(states@),
                    month as int,
                    month_models(months@),
                );
            }
            return None;
        }
        let ghost entered = models(states@);
        let ghost recorded = month_models(months@);
        match strategy {
            PayoffStrategy::Avalanche => {},
            PayoffStrategy::Snowball => {
                states = sort_states(strategy, states);
            },
        }
        let ghost ordered = models(states@);
        proof {
            assert(ordered == monthly_order(strategy, entered));
            lemma_monthly_order_keeps(strategy, entered, budget as int);
            lemma_month(ordered, budget as int, month as int);
            assert((month - 1) * BALANCE_LIMIT <= 1200 * BALANCE_LIMIT) by (nonlinear_arith)
                requires
                    1 <= month <= 1200,
            ;
            assert(month * BALANCE_LIMIT == (month - 1) * BALANCE_LIMIT + BALANCE_LIMIT) by (nonlinear_arith);
        }
        let result = simulate_month(&mut states, budget, month, total);
        let date = start.iso_string_after(((month - 1) * 30) as u16);
        let record = MonthlyPayment {
            month,
            date,
            payments: result.payments,
            total_paid: result.total_paid,
            remaining_balance: result.remaining_balance,
        };
        proof {
            assert(record@ == month_record(ordered, budget as int, month as int));
        }
        months.push(record);
        proof {
            assert(month_models(months@) =~= recorded.push(month_record(ordered, budget as int, month as int)));
        }
        total = result.remaining_balance;
        interest_total = interest_total + result.interest_added;
        month = month + 1;
    }
}

/// The working set at the start of a plan, with its totals.
pub struct WorkingSet {
    pub states: Vec<DebtState>,
    pub total_balance: i128,
    pub total_min_payments: i128,
}

/// Opens the working set: one state for each debt, in the order of the debts, with no
/// interest paid and no payoff month.
pub fn open_working_set(debts: &Vec<Debt>) -> (set: WorkingSet)
    ensures
        models(set.states@) == initial_states(debts@),
        set.total_balance == total_balance(initial_states(debts@)),
        set.total_min_payments == total_min_payments(debts@),
        total_interest_paid(initial_states(debts@)) == 0,
{
    let n = debts.len();
    let ghost opening = initial_states(debts@);
    let mut states: Vec<DebtState> = Vec::new();
    let mut total_balance: i128 = 0;
    let mut total_min_payments: i128 = 0;
    let mut i: usize = 0;
    proof {
        assert(balances(opening).take(0) =~= Seq::<int>::empty());
        assert(minimums(opening).take(0) =~= Seq::<int>::empty());
        assert forall|k: int| 0 <= k < interests(opening).len() implies interests(opening)[k] == 0 by {}
        lemma_sum_below(interests(opening), 0);
        lemma_sum_nonnegative(interests(opening));
    }
    while i < n
        invariant
            i <= n,
            debts.len() == n,
            opening == initial_states(debts@),
            states.len() == i,
            forall|k: int| 0 <= k < i ==> (#[trigger] states[k])@ == opening[k],
            total_balance == sum(balances(opening).take(i as int)),
            total_min_payments == sum(minimums(opening).take(i as int)),
            -(i as int) * 0x8000_0000_0000_0000 <= total_balance <= i as int * 0x8000_0000_0000_0000,
            -(i as int) * 0x8000_0000_0000_0000 <= total_min_payments <= i as int * 0x8000_0000_0000_0000,
        decreases n - i,
    {
        let debt = &debts[i];
        proof {
            lemma_sum_take_step(balances(opening), i as int);
            lemma_sum_take_step(minimums(opening), i as int);
            let wide = i as int;
            assert(wide * 0x8000_0000_0000_0000 <= 0xffff_ffff_ffff_ffff * 0x8000_0000_0000_0000)
                by (nonlinear_arith)
                requires
                    0 <= wide <= 0xffff_ffff_ffff_ffff,
            ;
            assert((wide + 1) * 0x8000_0000_0000_0000 == wide * 0x8000_0000_0000_0000
                + 0x8000_0000_0000_0000) by (nonlinear_arith);
        }
        total_balance = total_balance + debt.balance as i128;
        total_min_payments = total_min_payments + debt.min_payment as i128;
        states.push(
            DebtState {
                id: debt.id,
                name: debt.name.clone(),
                balance: debt.balance as i128,
                interest_rate: debt.interest_rate,
                min_payment: debt.min_payment,
                total_interest_paid: 0,
                payoff_month: None,
            },
        );
        i += 1;
    }
    proof {
        assert(balances(opening).take(n as int) =~= balances(opening));
        assert(minimums(opening).take(n as int) =~= minimums(opening));
        assert(models(states@) =~= opening);
    }
    WorkingSet { states, total_balance, total_min_payments }
}

/// Writes the summary of each debt of the working set, in its order.
pub fn summarize(states: &Vec<DebtState>) -> (summaries: Vec<DebtSummary>)
    ensures
        summaries@.map_values(|s: DebtSummary| s@) == models(states@).map_values(|d: DebtModel| summary_of(d)),
{
    let n = states.len();
    let mut summaries: Vec<DebtSummary> = Vec::new();
    let mut i: usize = 0;
    while i < n
        invariant
            i <= n,
            states.len() == n,
            summaries.len() == i,
            forall|k: int| 0 <= k < i ==> (#[trigger] summaries[k])@ == summary_of(states[k]@),
        decreases n - i,
    {
        let state = &states[i];
        let payoff_month = match state.payoff_month {
            Some(m) => m,
            None => 0,
        };
        summaries.push(
            DebtSummary {
                debt_id: state.id,
                debt_name: state.name.clone(),
                payoff_month,
                total_interest_paid: state.total_interest_paid,
            },
        );
        i += 1;
    }
    proof {
        assert(summaries@.map_values(|s: DebtSummary| s@) =~= models(states@).map_values(
            |d: DebtModel| summary_of(d),
        ));
    }
    summaries
}

/// What the planner returns for what the model expects.
pub open spec fn reports(result: Result<PayoffPlan, DebtError>, expected: Result<PlanModel, Rejection>) -> bool {
    match expected {
        Ok(plan) => result matches Ok(p) && p@ == plan,
        Err(Rejection::NoDebts) => result matches Err(DebtError::NoDebts),
        Err(Rejection::InsufficientFunds { monthly, min_payments }) => {
            &&& result matches Err(DebtError::InsufficientFunds { monthly: m, min_payments: p })
            &&& m == monthly
            &&& p == min_payments
        },
        Err(Rejection::PayoffExceeded) => {
            &&& result matches Err(DebtError::PayoffExceeded(years))
            &&& years == MAX_PAYOFF_YEARS
        },
    }
}

/// The debts that the planner is made for.
pub open spec fn all_plannable(debts: Seq<Debt>) -> bool {
    forall|i: int| 0 <= i < debts.len() ==> (#[trigger] debts[i]).is_plannable()
}

/// Tells whether the planner is made for all the debts.
pub fn check_all_plannable(debts: &Vec<Debt>) -> (ok: bool)
    ensures
        ok == all_plannable(debts@),
{
    let mut i: usize = 0;
    while i < debts.len()
        invariant
            i <= debts.len(),
            forall|k: int| 0 <= k < i ==> (#[trigger] debts@[k]).is_plannable(),
        decreases debts.len() - i,
    {
        if !debts[i].check_plannable() {
            return false;
        }
        i += 1;
    }
    true
}

/// Plans the payoff of `debts` with `monthly_amount` a month under `strategy`, the first
/// month being dated `start`.
///
/// An empty list of debts is refused, and so is a monthly amount below the sum of the
/// minimum payments. Otherwise the months are simulated one after the other until nothing is
/// owed; if something is still owed after the last allowed month, no plan is returned.
pub fn plan_payoff(strategy: PayoffStrategy, debts: &Vec<Debt>, monthly_amount: i64, start: CalendarDay) -> (result:
    Result<PayoffPlan, DebtError>)
    requires
        all_plannable(debts@),
    ensures
        reports(result, planned(strategy, monthly_amount as int, debts@, start@)),
{
    if debts.len() == 0 {
        return Err(DebtError::NoDebts);
    }
    // Validate monthly amount covers minimum payments
    let set = open_working_set(debts);
    if (monthly_amount as i128) < set.total_min_payments {
        return Err(DebtError::InsufficientFunds { monthly: monthly_amount, min_payments: set.total_min_payments });
    }
    let ghost opening = initial_states(debts@);
    proof {
        assert forall|i: int| 0 <= i < opening.len() implies well_formed(#[trigger] opening[i]) by {
            assert(debts@[i].is_plannable());
        }
        lemma_order_keeps(strategy, opening, monthly_amount as int);
    }
    let states = match strategy {
        PayoffStrategy::Avalanche => sort_states(strategy, set.states),
        PayoffStrategy::Snowball => set.states,
    };
    match run_months(strategy, monthly_amount, states, start, set.total_balance) {
        None => Err(DebtError::PayoffExceeded(MAX_PAYOFF_YEARS)),
        Some(done) => {
            let payoff_date = if done.months.len() == 0 {
                String::new()
            } else {
                done.months[done.months.len() - 1].date.clone()
            };
            let debt_summaries = summarize(&done.states);
            let plan = PayoffPlan {
                strategy: strategy.name(),
                payoff_date,
                total_interest: done.total_interest,
                monthly_breakdown: done.months,
                debt_summaries,
            };
            proof {
                let expected = assembled(strategy, models(done.states@), plan@.months, start@);
                assert(plan@.dates =~= expected.dates);
                assert(plan@.payoff_date =~= expected.payoff_date);
            }
            Ok(plan)
        },
    }
}

} // verus!
