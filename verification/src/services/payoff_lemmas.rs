use vstd::prelude::*;
use crate::constants::{MAX_PAYOFF_MONTHS, ZERO_BALANCE_THRESHOLD};
use crate::models::debt::PayoffStrategy;
use crate::services::payoff_model;
use crate::services::interest_calculator::{
    lemma_monthly_interest_bounded, lemma_monthly_interest_nonnegative, monthly_interest,
};
use crate::services::payoff_model::{
    accruals, accrue, accrued_interest, all_paid, all_well_formed, amounts, balances, comes_before,
    DebtModel, dues, extra_amount, first_active, first_payment_of, insert_position, interests,
    is_active, merge_payment, minimum_due, minimum_payments, minimums, month_end, month_payments,
    month_record, monthly_order, pay_minimums, PaymentModel, receives_extra, run, serviceable,
    settle, stable_sort, surplus, total_accrued, total_balance, total_due, total_interest_paid,
    total_minimums, total_paid, well_formed,
};
use crate::services::summation::{
    lemma_first_where, lemma_sum_below, lemma_sum_insert, lemma_sum_nonnegative,
    lemma_sum_pointwise_add, lemma_sum_pointwise_le, lemma_sum_push, lemma_sum_update, sum,
};

verus! {

// ----- ordering -----

/// A debt enters an ordered sequence at one of its places, or at its end.
pub proof fn lemma_insert_position_in_range(strategy: PayoffStrategy, s: Seq<DebtModel>, x: DebtModel)
    ensures
        0 <= insert_position(strategy, s, x) <= s.len(),
{
    lemma_first_where(s, |e: DebtModel| payoff_model::comes_before(strategy, x, e));
}

/// Sorting keeps the number of debts.
pub proof fn lemma_stable_sort_len(strategy: PayoffStrategy, s: Seq<DebtModel>)
    ensures
        stable_sort(strategy, s).len() == s.len(),
    decreases s.len(),
{
    if s.len() > 0 {
        lemma_stable_sort_len(strategy, s.drop_last());
        lemma_insert_position_in_range(strategy, stable_sort(strategy, s.drop_last()), s.last());
    }
}

/// What holds of every debt still holds of every debt once they are sorted.
pub proof fn lemma_stable_sort_preserves(strategy: PayoffStrategy, s: Seq<DebtModel>, p: spec_fn(DebtModel) -> bool)
    requires
        forall|i: int| 0 <= i < s.len() ==> p(#[trigger] s[i]),
    ensures
        forall|i: int| 0 <= i < stable_sort(strategy, s).len() ==> p(#[trigger] stable_sort(strategy, s)[i]),
    decreases s.len(),
{
    if s.len() > 0 {
        let prev = stable_sort(strategy, s.drop_last());
        assert forall|i: int| 0 <= i < s.drop_last().len() implies p(#[trigger] s.drop_last()[i]) by {
            assert(s.drop_last()[i] == s[i]);
        }
        lemma_stable_sort_preserves(strategy, s.drop_last(), p);
        lemma_insert_position_in_range(strategy, prev, s.last());
        let at = insert_position(strategy, prev, s.last());
        let sorted = stable_sort(strategy, s);
        assert(p(s[s.len() - 1]));
        assert forall|i: int| 0 <= i < sorted.len() implies p(#[trigger] sorted[i]) by {
            if i < at {
                assert(sorted[i] == prev[i]);
            } else if i == at {
                assert(sorted[i] == s.last());
            } else {
                assert(sorted[i] == prev[i - 1]);
            }
        }
    }
}

/// What holds of every debt once they are sorted held of every debt before.
pub proof fn lemma_stable_sort_reflects(strategy: PayoffStrategy, s: Seq<DebtModel>, p: spec_fn(DebtModel) -> bool)
    requires
        forall|i: int| 0 <= i < stable_sort(strategy, s).len() ==> p(#[trigger] stable_sort(strategy, s)[i]),
    ensures
        forall|i: int| 0 <= i < s.len() ==> p(#[trigger] s[i]),
    decreases s.len(),
{
    if s.len() > 0 {
        let prev = stable_sort(strategy, s.drop_last());
        lemma_stable_sort_len(strategy, s.drop_last());
        lemma_insert_position_in_range(strategy, prev, s.last());
        let at = insert_position(strategy, prev, s.last());
        let sorted = stable_sort(strategy, s);
        assert forall|i: int| 0 <= i < prev.len() implies p(#[trigger] prev[i]) by {
            if i < at {
                assert(sorted[i] == prev[i]);
            } else {
                assert(sorted[i + 1] == prev[i]);
            }
        }
        lemma_stable_sort_reflects(strategy, s.drop_last(), p);
        assert(sorted[at] == s.last());
        assert forall|i: int| 0 <= i < s.len() implies p(#[trigger] s[i]) by {
            if i < s.len() - 1 {
                assert(s.drop_last()[i] == s[i]);
            }
        }
    }
}

/// Sorting does not change the sum of any quantity over the debts.
pub proof fn lemma_stable_sort_sum(strategy: PayoffStrategy, s: Seq<DebtModel>, f: spec_fn(DebtModel) -> int)
    ensures
        sum(stable_sort(strategy, s).map_values(f)) == sum(s.map_values(f)),
    decreases s.len(),
{
    if s.len() > 0 {
        let prev = stable_sort(strategy, s.drop_last());
        lemma_stable_sort_sum(strategy, s.drop_last(), f);
        lemma_insert_position_in_range(strategy, prev, s.last());
        let at = insert_position(strategy, prev, s.last());
        assert(stable_sort(strategy, s).map_values(f) =~= prev.map_values(f).insert(at, f(s.last())));
        lemma_sum_insert(prev.map_values(f), at, f(s.last()));
        assert(s.map_values(f).drop_last() =~= s.drop_last().map_values(f));
    } else {
        assert(stable_sort(strategy, s).map_values(f) =~= s.map_values(f));
    }
}

/// The monthly reordering keeps what the simulation relies on.
pub proof fn lemma_monthly_order_keeps(strategy: PayoffStrategy, s: Seq<DebtModel>, budget: int)
    requires
        serviceable(s, budget),
    ensures
        serviceable(monthly_order(strategy, s), budget),
        monthly_order(strategy, s).len() == s.len(),
        total_balance(monthly_order(strategy, s)) == total_balance(s),
        total_minimums(monthly_order(strategy, s)) == total_minimums(s),
        total_interest_paid(monthly_order(strategy, s)) == total_interest_paid(s),
{
    lemma_order_keeps(strategy, s, budget);
}

/// Sorting keeps what the simulation relies on.
pub proof fn lemma_order_keeps(strategy: PayoffStrategy, s: Seq<DebtModel>, budget: int)
    requires
        serviceable(s, budget),
    ensures
        serviceable(stable_sort(strategy, s), budget),
        stable_sort(strategy, s).len() == s.len(),
        total_balance(stable_sort(strategy, s)) == total_balance(s),
        total_minimums(stable_sort(strategy, s)) == total_minimums(s),
        total_interest_paid(stable_sort(strategy, s)) == total_interest_paid(s),
{
    let sorted = stable_sort(strategy, s);
    lemma_stable_sort_sum(strategy, s, |d: DebtModel| d.total_interest_paid);
    assert(sorted.map_values(|d: DebtModel| d.total_interest_paid) =~= interests(sorted));
    assert(s.map_values(|d: DebtModel| d.total_interest_paid) =~= interests(s));
    lemma_stable_sort_len(strategy, s);
    lemma_stable_sort_preserves(strategy, s, |d: DebtModel| well_formed(d));
    lemma_stable_sort_sum(strategy, s, |d: DebtModel| d.balance);
    lemma_stable_sort_sum(strategy, s, |d: DebtModel| d.min_payment);
    assert(sorted.map_values(|d: DebtModel| d.balance) =~= balances(sorted));
    assert(s.map_values(|d: DebtModel| d.balance) =~= balances(s));
    assert(sorted.map_values(|d: DebtModel| d.min_payment) =~= minimums(sorted));
    assert(s.map_values(|d: DebtModel| d.min_payment) =~= minimums(s));
}

// ----- one month -----

/// A month adds no more interest to a debt than it owes, and never takes any off.
pub proof fn lemma_accrued_interest_bounds(d: DebtModel)
    requires
        well_formed(d),
    ensures
        0 <= accrued_interest(d) <= d.balance,
{
    lemma_monthly_interest_nonnegative(d.balance, d.interest_rate);
    lemma_monthly_interest_bounded(d.balance, d.interest_rate, 100_000_000);
    let i = monthly_interest(d.balance, d.interest_rate);
    let b = d.balance;
    assert(i <= b) by (nonlinear_arith)
        requires
            i * 1_200_000_000 <= b * 100_000_000,
            b >= 0,
    ;
}

/// Accrual adds the accrued interest to the total balance and keeps the debts well-formed.
pub proof fn lemma_accrue(s: Seq<DebtModel>)
    requires
        all_well_formed(s),
    ensures
        all_well_formed(accrue(s)),
        accrue(s).len() == s.len(),
        total_balance(accrue(s)) == total_balance(s) + total_accrued(s),
        0 <= total_accrued(s) <= total_balance(s),
        minimums(accrue(s)) == minimums(s),
        all_paid(s) == all_paid(accrue(s)),
        total_interest_paid(accrue(s)) == total_interest_paid(s) + total_accrued(s),
{
    let a = accrue(s);
    lemma_sum_pointwise_add(interests(s), accruals(s), interests(a));
    assert forall|i: int| 0 <= i < s.len() implies 0 <= #[trigger] accruals(s)[i] <= balances(s)[i]
        && well_formed(a[i]) && (is_active(a[i]) == is_active(s[i])) by {
        assert(well_formed(s[i]));
        lemma_accrued_interest_bounds(s[i]);
    }
    lemma_sum_pointwise_add(balances(s), accruals(s), balances(a));
    lemma_sum_nonnegative(accruals(s));
    lemma_sum_pointwise_le(accruals(s), balances(s));
    assert(minimums(a) =~= minimums(s));
    if all_paid(s) {
        assert forall|i: int| 0 <= i < a.len() implies !is_active(#[trigger] a[i]) by {
            assert(!is_active(s[i]));
        }
    }
    if all_paid(a) {
        assert forall|i: int| 0 <= i < s.len() implies !is_active(#[trigger] s[i]) by {
            assert(!is_active(a[i]));
        }
    }
}

/// What a debt is due is no more than its minimum payment, and no more than it owes.
pub proof fn lemma_minimum_due_bounds(d: DebtModel)
    requires
        well_formed(d),
    ensures
        0 <= minimum_due(d) <= d.min_payment,
        minimum_due(d) <= d.balance,
{
}

/// The minimum payments take their sum off the total balance and keep the debts well-formed.
pub proof fn lemma_pay_minimums(s: Seq<DebtModel>, month: int)
    requires
        all_well_formed(s),
    ensures
        all_well_formed(pay_minimums(s, month)),
        pay_minimums(s, month).len() == s.len(),
        total_balance(pay_minimums(s, month)) == total_balance(s) - total_due(s),
        0 <= total_due(s) <= total_minimums(s),
        total_due(s) <= total_balance(s),
        minimums(pay_minimums(s, month)) == minimums(s),
        interests(pay_minimums(s, month)) == interests(s),
{
    let p = pay_minimums(s, month);
    assert(interests(p) =~= interests(s));
    assert forall|i: int| 0 <= i < s.len() implies 0 <= #[trigger] dues(s)[i] <= minimums(s)[i]
        && dues(s)[i] <= balances(s)[i] && well_formed(p[i]) && balances(s)[i] == balances(p)[i]
        + dues(s)[i] by {
        assert(well_formed(s[i]));
        lemma_minimum_due_bounds(s[i]);
    }
    lemma_sum_pointwise_add(balances(p), dues(s), balances(s));
    lemma_sum_nonnegative(dues(s));
    lemma_sum_pointwise_le(dues(s), minimums(s));
    lemma_sum_pointwise_le(dues(s), balances(s));
    assert(minimums(p) =~= minimums(s));
}

/// The records of the minimum payments add up to what was due.
pub proof fn lemma_minimum_payments_total(s: Seq<DebtModel>)
    ensures
        total_paid(minimum_payments(s)) == total_due(s),
        minimum_payments(s).len() <= s.len(),
    decreases s.len(),
{
    if s.len() > 0 {
        let front = s.drop_last();
        lemma_minimum_payments_total(front);
        assert(dues(s).drop_last() =~= dues(front));
        if is_active(s.last()) {
            let record = PaymentModel {
                debt_id: s.last().id,
                debt_name: s.last().name,
                amount: minimum_due(s.last()),
            };
            assert(amounts(minimum_payments(s)) =~= amounts(minimum_payments(front)).push(record.amount));
            lemma_sum_push(amounts(minimum_payments(front)), record.amount);
        }
    } else {
        assert(amounts(minimum_payments(s)) =~= Seq::<int>::empty());
        assert(dues(s) =~= Seq::<int>::empty());
    }
}

/// Merging a payment into the records adds its amount to their total.
pub proof fn lemma_merge_payment_total(payments: Seq<PaymentModel>, extra: PaymentModel)
    ensures
        total_paid(merge_payment(payments, extra)) == total_paid(payments) + extra.amount,
{
    lemma_first_where(payments, |p: PaymentModel| p.debt_id == extra.debt_id);
    let at = first_payment_of(payments, extra.debt_id);
    if at < payments.len() {
        assert(amounts(merge_payment(payments, extra)) =~= amounts(payments).update(
            at,
            payments[at].amount + extra.amount,
        ));
        lemma_sum_update(amounts(payments), at, payments[at].amount + extra.amount);
    } else {
        assert(amounts(merge_payment(payments, extra)) =~= amounts(payments).push(extra.amount));
        lemma_sum_push(amounts(payments), extra.amount);
    }
}

/// A payment to one debt takes its amount off the total balance.
pub proof fn lemma_settle_total(s: Seq<DebtModel>, at: int, paid: int, month: int)
    requires
        0 <= at < s.len(),
    ensures
        total_balance(s.update(at, settle(s[at], paid, month))) == total_balance(s) - paid,
        minimums(s.update(at, settle(s[at], paid, month))) == minimums(s),
        interests(s.update(at, settle(s[at], paid, month))) == interests(s),
{
    let t = s.update(at, settle(s[at], paid, month));
    assert(interests(t) =~= interests(s));
    assert(balances(t) =~= balances(s).update(at, s[at].balance - paid));
    lemma_sum_update(balances(s), at, s[at].balance - paid);
    assert(minimums(t) =~= minimums(s));
}

/// What a whole month does to the totals: the balance grows by the interest and shrinks by
/// the payments, and the payments never exceed the budget.
pub proof fn lemma_month(ordered: Seq<DebtModel>, budget: int, month: int)
    requires
        serviceable(ordered, budget),
    ensures
        serviceable(month_end(ordered, budget, month), budget),
        month_end(ordered, budget, month).len() == ordered.len(),
        total_balance(month_end(ordered, budget, month)) == total_balance(ordered) + total_accrued(ordered)
            - total_paid(month_payments(ordered, budget, month)),
        0 <= total_paid(month_payments(ordered, budget, month)) <= budget,
        0 <= total_accrued(ordered) <= total_balance(ordered),
        total_interest_paid(month_end(ordered, budget, month)) == total_interest_paid(ordered) + total_accrued(
            ordered,
        ),
        0 <= surplus(accrue(ordered), budget) <= budget,
        total_paid(month_payments(ordered, budget, month)) == total_due(accrue(ordered)) + (if receives_extra(
            accrue(ordered),
            budget,
            month,
        ) {
            extra_amount(
                pay_minimums(accrue(ordered), month)[first_active(pay_minimums(accrue(ordered), month))],
                surplus(accrue(ordered), budget),
            )
        } else {
            0
        }),
{
    let accrued = accrue(ordered);
    lemma_accrue(ordered);
    let paid = pay_minimums(accrued, month);
    lemma_pay_minimums(accrued, month);
    lemma_minimum_payments_total(accrued);
    if receives_extra(accrued, budget, month) {
        let at = first_active(paid);
        lemma_first_where(paid, |d: DebtModel| is_active(d));
        let extra = extra_amount(paid[at], surplus(accrued, budget));
        lemma_settle_total(paid, at, extra, month);
        assert(well_formed(paid[at]));
        let end = month_end(ordered, budget, month);
        assert forall|i: int| 0 <= i < end.len() implies well_formed(#[trigger] end[i]) by {
            if i != at {
                assert(well_formed(paid[i]));
            }
        }
        lemma_merge_payment_total(
            minimum_payments(accrued),
            PaymentModel { debt_id: paid[at].id, debt_name: paid[at].name, amount: extra },
        );
    }
}

// ----- the safety bound -----

/// With nothing owed, the total balance is below the threshold for each debt.
pub proof fn lemma_all_paid_total(s: Seq<DebtModel>)
    requires
        all_paid(s),
    ensures
        total_balance(s) <= s.len() * ZERO_BALANCE_THRESHOLD,
{
    assert forall|k: int| 0 <= k < balances(s).len() implies balances(s)[k] <= ZERO_BALANCE_THRESHOLD by {
        assert(!is_active(s[k]));
    }
    lemma_sum_below(balances(s), ZERO_BALANCE_THRESHOLD as int);
}

/// The most that may be owed in total at the start of `month` if the plan is still to be
/// completed: each remaining month takes at most the budget off the total.
pub open spec fn payable(count: int, budget: int, month: int) -> int {
    count * ZERO_BALANCE_THRESHOLD + (MAX_PAYOFF_MONTHS + 1 - month) * budget
}

/// A working set that owes more than the remaining months can pay cannot be paid off in time.
pub proof fn lemma_run_fails_beyond_payable(
    strategy: PayoffStrategy,
    budget: int,
    s: Seq<DebtModel>,
    month: int,
    months: Seq<payoff_model::MonthModel>,
)
    requires
        serviceable(s, budget),
        1 <= month <= MAX_PAYOFF_MONTHS + 1,
        total_balance(s) > payable(s.len() as int, budget, month),
    ensures
        run(strategy, budget, s, month, months) is Failed,
    decreases MAX_PAYOFF_MONTHS + 1 - month,
{
    lemma_sum_nonnegative(minimums(s));
    assert(budget >= 0) by {
        assert forall|k: int| 0 <= k < minimums(s).len() implies minimums(s)[k] >= 0 by {
            assert(well_formed(s[k]));
        }
        lemma_sum_nonnegative(minimums(s));
    }
    if all_paid(s) {
        lemma_all_paid_total(s);
        assert((MAX_PAYOFF_MONTHS + 1 - month) * budget >= 0) by (nonlinear_arith)
            requires
                MAX_PAYOFF_MONTHS + 1 - month >= 0,
                budget >= 0,
        ;
    } else if month <= MAX_PAYOFF_MONTHS {
        let ordered = monthly_order(strategy, s);
        lemma_monthly_order_keeps(strategy, s, budget);
        lemma_month(ordered, budget, month);
        let next = month_end(ordered, budget, month);
        assert((MAX_PAYOFF_MONTHS + 1 - month) * budget == (MAX_PAYOFF_MONTHS + 1 - (month + 1)) * budget
            + budget) by (nonlinear_arith);
        lemma_run_fails_beyond_payable(
            strategy,
            budget,
            next,
            month + 1,
            months.push(payoff_model::month_record(ordered, budget, month)),
        );
    }
}

} // verus!
