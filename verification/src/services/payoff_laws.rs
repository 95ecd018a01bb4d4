use vstd::prelude::*;
use crate::constants::{MAX_PAYOFF_MONTHS, ZERO_BALANCE_THRESHOLD};
use crate::models::debt::{Debt, PayoffStrategy};
use crate::services::interest_calculator::{
    lemma_monthly_interest_monotone, lemma_monthly_interest_nonnegative, monthly_interest,
};
use crate::services::payoff_lemmas::{
    lemma_accrue, lemma_month, lemma_monthly_order_keeps, lemma_order_keeps, lemma_pay_minimums,
    lemma_run_fails_beyond_payable, lemma_stable_sort_preserves, lemma_stable_sort_reflects,
};
use crate::services::payoff_model::{
    accrue, all_paid, all_well_formed, balances, comes_before, DebtModel, dues, first_active,
    initial_states, insert_position, interests, is_active, minimum_due, month_end, month_record,
    monthly_order, MonthModel, opening_order, pay_minimums, plan_outcome, PlanModel, planned,
    receives_extra, Rejection, rejection, run, serviceable, simulate, stable_sort, summary_of,
    SummaryModel, surplus, total_balance, total_interest_paid, total_paid, well_formed,
};
use crate::services::summation::{
    lemma_first_where, lemma_sum_below, lemma_sum_nonnegative, lemma_sum_push, lemma_sum_single,
    sum,
};

verus! {

// ----- the order -----

/// No element has to stand before one that stands before it.
pub open spec fn in_order(strategy: PayoffStrategy, s: Seq<DebtModel>) -> bool {
    forall|a: int, b: int| 0 <= a < b < s.len() ==> !comes_before(strategy, #[trigger] s[b], #[trigger] s[a])
}

/// Two debts of which neither has to stand before the other.
pub open spec fn of_equal_rank(strategy: PayoffStrategy, a: DebtModel, b: DebtModel) -> bool {
    !comes_before(strategy, a, b) && !comes_before(strategy, b, a)
}

/// Sorting puts the debts in order.
pub proof fn lemma_stable_sort_is_in_order(strategy: PayoffStrategy, s: Seq<DebtModel>)
    ensures
        in_order(strategy, stable_sort(strategy, s)),
    decreases s.len(),
{
    if s.len() > 0 {
        let prev = stable_sort(strategy, s.drop_last());
        let x = s.last();
        lemma_stable_sort_is_in_order(strategy, s.drop_last());
        lemma_first_where(prev, |e: DebtModel| comes_before(strategy, x, e));
        let at = insert_position(strategy, prev, x);
        let sorted = stable_sort(strategy, s);
        assert forall|a: int, b: int| 0 <= a < b < sorted.len() implies !comes_before(
            strategy,
            #[trigger] sorted[b],
            #[trigger] sorted[a],
        ) by {
            if b < at {
                assert(sorted[a] == prev[a] && sorted[b] == prev[b]);
            } else if b == at {
                // nothing that stands before `x` has to stand after it
                assert(sorted[a] == prev[a]);
                assert(!comes_before(strategy, x, prev[a]));
            } else if a < at {
                assert(sorted[a] == prev[a] && sorted[b] == prev[b - 1]);
            } else if a == at {
                // `x` has to stand before `prev[at]`, which does not have to stand after
                // `prev[b - 1]`
                assert(sorted[b] == prev[b - 1]);
                assert(comes_before(strategy, x, prev[at]));
                if b - 1 > at {
                    assert(!comes_before(strategy, prev[b - 1], prev[at]));
                }
            } else {
                assert(sorted[a] == prev[a - 1] && sorted[b] == prev[b - 1]);
            }
        }
    }
}

/// Sorting neither loses a debt nor makes one up.
pub proof fn lemma_stable_sort_is_permutation(strategy: PayoffStrategy, s: Seq<DebtModel>)
    ensures
        stable_sort(strategy, s).to_multiset() == s.to_multiset(),
    decreases s.len(),
{
    if s.len() > 0 {
        let prev = stable_sort(strategy, s.drop_last());
        lemma_stable_sort_is_permutation(strategy, s.drop_last());
        lemma_first_where(prev, |e: DebtModel| comes_before(strategy, s.last(), e));
        vstd::seq_lib::to_multiset_insert(prev, insert_position(strategy, prev, s.last()), s.last());
        vstd::seq_lib::to_multiset_build(s.drop_last(), s.last());
        assert(s.drop_last().push(s.last()) =~= s);
    }
}

/// Sorting keeps debts of equal rank in the order they had.
pub proof fn lemma_stable_sort_is_stable(strategy: PayoffStrategy, s: Seq<DebtModel>, x: DebtModel)
    ensures
        stable_sort(strategy, s).filter(|e: DebtModel| of_equal_rank(strategy, e, x)) == s.filter(
            |e: DebtModel| of_equal_rank(strategy, e, x),
        ),
    decreases s.len(),
{
    let same = |e: DebtModel| of_equal_rank(strategy, e, x);
    if s.len() > 0 {
        let front = s.drop_last();
        let prev = stable_sort(strategy, front);
        let last = s.last();
        lemma_stable_sort_is_stable(strategy, front, x);
        lemma_stable_sort_is_in_order(strategy, front);
        lemma_first_where(prev, |e: DebtModel| comes_before(strategy, last, e));
        let at = insert_position(strategy, prev, last);
        let head = prev.subrange(0, at);
        let tail = prev.subrange(at, prev.len() as int);
        assert(prev =~= head + tail);
        assert(stable_sort(strategy, s) =~= head + seq![last] + tail);
        assert(s =~= front + seq![last]);
        Seq::filter_distributes_over_add(head, tail, same);
        Seq::filter_distributes_over_add(head + seq![last], tail, same);
        Seq::filter_distributes_over_add(head, seq![last], same);
        Seq::filter_distributes_over_add(front, seq![last], same);
        if same(last) {
            // nothing from the insertion point on is of the rank of `x`
            assert forall|k: int| 0 <= k < tail.len() implies !same(#[trigger] tail[k]) by {
                assert(tail[k] == prev[at + k]);
                assert(comes_before(strategy, last, prev[at]));
                if k > 0 {
                    assert(!comes_before(strategy, prev[at + k], prev[at]));
                }
            }
            lemma_filter_none(tail, same);
            assert(tail.filter(same) + seq![last].filter(same) =~= seq![last].filter(same) + tail.filter(same));
        } else {
            lemma_filter_one(last, same);
        }
        assert(head.filter(same) + seq![last].filter(same) + tail.filter(same) =~= head.filter(same) + (
        seq![last].filter(same) + tail.filter(same)));
        assert(head.filter(same) + tail.filter(same) + seq![last].filter(same) =~= head.filter(same) + (
        tail.filter(same) + seq![last].filter(same)));
    }
}

/// Where nothing satisfies `p`, nothing is kept.
proof fn lemma_filter_none(s: Seq<DebtModel>, p: spec_fn(DebtModel) -> bool)
    requires
        forall|k: int| 0 <= k < s.len() ==> !p(#[trigger] s[k]),
    ensures
        s.filter(p) == Seq::<DebtModel>::empty(),
    decreases s.len(),
{
    reveal(Seq::filter);
    if s.len() > 0 {
        assert forall|k: int| 0 <= k < s.drop_last().len() implies !p(#[trigger] s.drop_last()[k]) by {
            assert(s.drop_last()[k] == s[k]);
        }
        lemma_filter_none(s.drop_last(), p);
    }
}

/// A single debt that does not satisfy `p` is not kept.
proof fn lemma_filter_one(x: DebtModel, p: spec_fn(DebtModel) -> bool)
    requires
        !p(x),
    ensures
        seq![x].filter(p) == Seq::<DebtModel>::empty(),
{
    lemma_filter_none(seq![x], p);
}

/// Under the avalanche strategy the order by rate, once made, is kept by every month.
pub proof fn lemma_month_keeps_rate_order(ordered: Seq<DebtModel>, budget: int, month: int)
    requires
        in_order(PayoffStrategy::Avalanche, ordered),
    ensures
        in_order(PayoffStrategy::Avalanche, month_end(ordered, budget, month)),
{
    let end = month_end(ordered, budget, month);
    let paid = pay_minimums(accrue(ordered), month);
    lemma_first_where(paid, |d: DebtModel| is_active(d));
    assert forall|a: int, b: int| 0 <= a < b < end.len() implies !comes_before(
        PayoffStrategy::Avalanche,
        #[trigger] end[b],
        #[trigger] end[a],
    ) by {
        assert(end[a].interest_rate == ordered[a].interest_rate);
        assert(end[b].interest_rate == ordered[b].interest_rate);
        assert(!comes_before(PayoffStrategy::Avalanche, ordered[b], ordered[a]));
    }
}

/// The surplus goes to the debt the strategy names: of the debts still owed after the
/// minimum payments, none has to stand before the one that receives the surplus. Under
/// the avalanche strategy none of them has a higher rate; under the snowball strategy none
/// of them entered the month with a lower balance.
pub proof fn lemma_surplus_goes_to_first_in_order(
    strategy: PayoffStrategy,
    ordered: Seq<DebtModel>,
    budget: int,
    month: int,
    k: int,
)
    requires
        in_order(strategy, ordered),
        all_well_formed(ordered),
        receives_extra(accrue(ordered), budget, month),
        0 <= k < ordered.len(),
        is_active(pay_minimums(accrue(ordered), month)[k]),
    ensures
        ({
            let target = first_active(pay_minimums(accrue(ordered), month));
            &&& 0 <= target <= k
            &&& !comes_before(strategy, ordered[k], ordered[target])
            &&& strategy == PayoffStrategy::Avalanche ==> ordered[k].interest_rate <= ordered[target].interest_rate
            &&& strategy == PayoffStrategy::Snowball ==> ordered[target].balance <= ordered[k].balance
        }),
{
    let accrued = accrue(ordered);
    let paid = pay_minimums(accrued, month);
    lemma_first_where(paid, |d: DebtModel| is_active(d));
    let target = first_active(paid);
    if target < k {
        assert(!comes_before(strategy, ordered[k], ordered[target]));
    }
    // a debt still owed after its minimum payment was owed when it entered the month
    assert(well_formed(ordered[k]) && well_formed(ordered[target]));
    assert(is_active(ordered[k]));
    assert(is_active(ordered[target]));
}

// ----- interest -----

/// The interest that a plan reports in total is the sum of the interest it reports for
/// each debt.
pub proof fn lemma_total_interest_is_sum_over_debts(
    strategy: PayoffStrategy,
    budget: int,
    debts: Seq<Debt>,
    start: int,
)
    requires
        planned(strategy, budget, debts, start) is Ok,
    ensures
        ({
            let plan = planned(strategy, budget, debts, start)->Ok_0;
            plan.total_interest == sum(plan.summaries.map_values(|s: SummaryModel| s.total_interest_paid))
        }),
{
    let plan = planned(strategy, budget, debts, start)->Ok_0;
    let states = plan_outcome(strategy, budget, debts)->Ok_0->states;
    assert(plan.summaries.map_values(|s: SummaryModel| s.total_interest_paid) =~= interests(states));
}

// ----- one month -----

/// A debt that is paid off is left as it is: it earns no interest, receives no payment and
/// keeps its payoff month.
pub proof fn lemma_paid_debt_is_left_alone(ordered: Seq<DebtModel>, budget: int, month: int, i: int)
    requires
        0 <= i < ordered.len(),
        !is_active(ordered[i]),
    ensures
        month_end(ordered, budget, month)[i] == ordered[i],
{
    let accrued = accrue(ordered);
    let paid = pay_minimums(accrued, month);
    assert(accrued[i] == ordered[i]);
    assert(paid[i] == ordered[i]);
    lemma_first_where(paid, |d: DebtModel| is_active(d));
}

/// The payoff month of a debt is recorded in the month in which its balance falls below
/// the threshold, and at no other time: a month that is recorded stays; a debt that enters
/// the month still owed and leaves it paid off gets this month; any other debt gets none.
pub proof fn lemma_payoff_month_is_month_of_payoff(ordered: Seq<DebtModel>, budget: int, month: int, i: int)
    requires
        0 <= i < ordered.len(),
    ensures
        month_end(ordered, budget, month)[i].payoff_month == (if ordered[i].payoff_month is Some {
            ordered[i].payoff_month
        } else if is_active(ordered[i]) && !is_active(month_end(ordered, budget, month)[i]) {
            Some(month)
        } else {
            None
        }),
{
    let accrued = accrue(ordered);
    let paid = pay_minimums(accrued, month);
    lemma_first_where(paid, |d: DebtModel| is_active(d));
    if !is_active(ordered[i]) {
        lemma_paid_debt_is_left_alone(ordered, budget, month, i);
    } else {
        lemma_monthly_interest_nonnegative(
            ordered[i].balance,
            ordered[i].interest_rate,
        );
        assert(is_active(accrued[i]));
    }
}

/// What the debts receive in a month is the budget less the surplus, and the extra
/// payment if one is made.
pub open spec fn uses_whole_budget(ordered: Seq<DebtModel>, budget: int, month: int) -> bool {
    let accrued = accrue(ordered);
    let paid = pay_minimums(accrued, month);
    ||| surplus(accrued, budget) == 0
    ||| (receives_extra(accrued, budget, month) && paid[first_active(paid)].balance >= surplus(accrued, budget))
}

/// The payments of a month never exceed the budget, and they equal it exactly when nothing
/// is left after the minimum payments, or the first debt still owed can take all that is
/// left and that is more than the threshold.
pub proof fn lemma_month_pays_at_most_budget(ordered: Seq<DebtModel>, budget: int, month: int)
    requires
        serviceable(ordered, budget),
    ensures
        0 <= month_record(ordered, budget, month).total_paid <= budget,
        month_record(ordered, budget, month).total_paid == budget <==> uses_whole_budget(ordered, budget, month),
{
    lemma_month(ordered, budget, month);
}

/// In a month in which more is owed than the budget, the whole budget is paid, provided
/// that the surplus over the minimum payments can be placed: it is nothing, or it exceeds
/// the threshold and the first debt still owed can take all of it.
pub proof fn lemma_budget_is_spent_while_more_is_owed(ordered: Seq<DebtModel>, budget: int, month: int)
    requires
        serviceable(ordered, budget),
        total_balance(accrue(ordered)) > budget,
        uses_whole_budget(ordered, budget, month),
    ensures
        month_record(ordered, budget, month).total_paid == budget,
{
    lemma_month_pays_at_most_budget(ordered, budget, month);
}

/// With a single debt that owes more than the budget, the whole budget is paid unless a
/// surplus over the minimum payment is left that does not exceed the threshold.
pub proof fn lemma_single_debt_spends_budget(ordered: Seq<DebtModel>, budget: int, month: int)
    requires
        serviceable(ordered, budget),
        ordered.len() == 1,
        total_balance(accrue(ordered)) > budget,
        surplus(accrue(ordered), budget) == 0 || surplus(accrue(ordered), budget) > ZERO_BALANCE_THRESHOLD,
    ensures
        month_record(ordered, budget, month).total_paid == budget,
{
    let accrued = accrue(ordered);
    let paid = pay_minimums(accrued, month);
    lemma_month(ordered, budget, month);
    lemma_accrue(ordered);
    lemma_pay_minimums(accrued, month);
    lemma_first_where(paid, |d: DebtModel| is_active(d));
    assert(balances(accrued) =~= seq![accrued[0].balance]);
    assert(balances(paid) =~= seq![paid[0].balance]);
    assert(dues(accrued) =~= seq![
        minimum_due(accrued[0]),
    ]);
    lemma_sum_single(accrued[0].balance);
    lemma_sum_single(paid[0].balance);
    lemma_sum_single(minimum_due(accrued[0]));
    if surplus(accrued, budget) > ZERO_BALANCE_THRESHOLD {
        assert(paid[0].balance > surplus(accrued, budget));
        assert(is_active(paid[0]));
        assert(first_active(paid) == 0);
    }
    lemma_month_pays_at_most_budget(ordered, budget, month);
}

// ----- the whole simulation -----

/// What has been paid in all the months recorded.
pub open spec fn paid_in_all(months: Seq<MonthModel>) -> int {
    sum(months.map_values(|m: MonthModel| m.total_paid))
}

/// The working set after `passed` months of a simulation that began with `opening`.
pub open spec fn state_after(strategy: PayoffStrategy, budget: int, opening: Seq<DebtModel>, passed: nat) -> Seq<
    DebtModel,
>
    decreases passed,
{
    if passed == 0 {
        opening
    } else {
        month_end(
            monthly_order(strategy, state_after(strategy, budget, opening, (passed - 1) as nat)),
            budget,
            passed as int,
        )
    }
}

/// The working set as it enters `month`, in the month's order.
pub open spec fn entering(strategy: PayoffStrategy, budget: int, opening: Seq<DebtModel>, month: int) -> Seq<
    DebtModel,
> {
    monthly_order(strategy, state_after(strategy, budget, opening, (month - 1) as nat))
}

/// The debt `d` is what `month` made of a debt that entered it still owed.
pub open spec fn came_of_debt_owed_in(
    strategy: PayoffStrategy,
    budget: int,
    opening: Seq<DebtModel>,
    d: DebtModel,
    month: int,
) -> bool {
    let before = entering(strategy, budget, opening, month);
    exists|j: int| 0 <= j < before.len() && is_active(#[trigger] before[j]) && month_end(before, budget, month)[j] == d
}

/// What the payoff month of a debt says, `month` being the month about to begin:
/// - a payoff month is recorded only for a debt that is paid off; it is a month that has
///   passed, and in that month the debt went from owed to paid off;
/// - a debt that is paid off without a payoff month never was owed: it is as it was at
///   the opening.
pub open spec fn payoff_recorded_duly(
    strategy: PayoffStrategy,
    budget: int,
    opening: Seq<DebtModel>,
    d: DebtModel,
    month: int,
) -> bool {
    match d.payoff_month {
        Some(p) => 1 <= p < month && !is_active(d) && came_of_debt_owed_in(strategy, budget, opening, d, p),
        None => is_active(d) || exists|j: int| 0 <= j < opening.len() && #[trigger] opening[j] == d,
    }
}

/// What holds of a simulation that began with `opening` and is about to enter `month`.
pub open spec fn on_course(
    strategy: PayoffStrategy,
    budget: int,
    opening: Seq<DebtModel>,
    s: Seq<DebtModel>,
    month: int,
    months: Seq<MonthModel>,
) -> bool {
    &&& serviceable(s, budget)
    &&& s == state_after(strategy, budget, opening, (month - 1) as nat)
    &&& s.len() == opening.len()
    &&& months.len() == month - 1
    &&& forall|k: int|
        0 <= k < months.len() ==> {
            &&& (#[trigger] months[k]) == month_record(entering(strategy, budget, opening, k + 1), budget, k + 1)
            &&& months[k].month == k + 1
            &&& 0 <= months[k].total_paid <= budget
            &&& months[k].total_paid == total_paid(months[k].payments)
            &&& months[k].remaining_balance >= 0
        }
    &&& forall|i: int| 0 <= i < s.len() ==> payoff_recorded_duly(strategy, budget, opening, #[trigger] s[i], month)
    &&& month > 1 && all_paid(s) ==> exists|i: int| 0 <= i < s.len() && (#[trigger] s[i]).payoff_month == Some(month - 1)
    &&& month > 1 ==> months.last().remaining_balance == total_balance(s)
    &&& paid_in_all(months) == total_balance(opening) + total_interest_paid(s) - total_balance(s)
}

/// Well-formed debts owe nothing negative in all.
proof fn lemma_total_balance_nonnegative(s: Seq<DebtModel>)
    requires
        all_well_formed(s),
    ensures
        total_balance(s) >= 0,
{
    assert forall|k: int| 0 <= k < balances(s).len() implies balances(s)[k] >= 0 by {
        assert(well_formed(s[k]));
    }
    lemma_sum_nonnegative(balances(s));
}

/// One month keeps the simulation on course.
proof fn lemma_month_stays_on_course(
    strategy: PayoffStrategy,
    budget: int,
    opening: Seq<DebtModel>,
    s: Seq<DebtModel>,
    month: int,
    months: Seq<MonthModel>,
)
    requires
        on_course(strategy, budget, opening, s, month, months),
        1 <= month,
        !all_paid(s),
    ensures
        on_course(
            strategy,
            budget,
            opening,
            month_end(monthly_order(strategy, s), budget, month),
            month + 1,
            months.push(month_record(monthly_order(strategy, s), budget, month)),
        ),
{
    let ordered = monthly_order(strategy, s);
    let next = month_end(ordered, budget, month);
    let record = month_record(ordered, budget, month);
    let recorded = months.push(record);
    lemma_monthly_order_keeps(strategy, s, budget);
    lemma_month(ordered, budget, month);
    lemma_total_balance_nonnegative(next);
    assert(ordered == entering(strategy, budget, opening, month));
    assert(next == state_after(strategy, budget, opening, month as nat));
    // the payoff months of the debts as they enter the month
    assert forall|i: int| 0 <= i < ordered.len() implies payoff_recorded_duly(
        strategy,
        budget,
        opening,
        #[trigger] ordered[i],
        month,
    ) by {
        match strategy {
            PayoffStrategy::Avalanche => {},
            PayoffStrategy::Snowball => {
                lemma_stable_sort_preserves(
                    strategy,
                    s,
                    |d: DebtModel| payoff_recorded_duly(strategy, budget, opening, d, month),
                );
            },
        }
    }
    // and as they leave it
    assert forall|i: int| 0 <= i < next.len() implies payoff_recorded_duly(
        strategy,
        budget,
        opening,
        #[trigger] next[i],
        month + 1,
    ) by {
        assert(payoff_recorded_duly(strategy, budget, opening, ordered[i], month));
        lemma_payoff_month_is_month_of_payoff(ordered, budget, month, i);
        if !is_active(ordered[i]) {
            lemma_paid_debt_is_left_alone(ordered, budget, month, i);
        } else if !is_active(next[i]) {
            assert(came_of_debt_owed_in(strategy, budget, opening, next[i], month));
        }
    }
    // a debt that was still owed is paid off in this month if all are
    if all_paid(next) {
        if all_paid(ordered) {
            match strategy {
                PayoffStrategy::Avalanche => {},
                PayoffStrategy::Snowball => {
                    lemma_stable_sort_reflects(strategy, s, |d: DebtModel| !is_active(d));
                },
            }
            assert(all_paid(s));
        }
        let j = choose|j: int| 0 <= j < ordered.len() && is_active(#[trigger] ordered[j]);
        assert(payoff_recorded_duly(strategy, budget, opening, ordered[j], month));
        lemma_payoff_month_is_month_of_payoff(ordered, budget, month, j);
        assert(!is_active(next[j]));
        assert(next[j].payoff_month == Some(month));
    }
    // the money
    assert(recorded.map_values(|m: MonthModel| m.total_paid) =~= months.map_values(
        |m: MonthModel| m.total_paid,
    ).push(record.total_paid));
    lemma_sum_push(months.map_values(|m: MonthModel| m.total_paid), record.total_paid);
    assert forall|k: int| 0 <= k < recorded.len() implies {
        &&& (#[trigger] recorded[k]) == month_record(entering(strategy, budget, opening, k + 1), budget, k + 1)
        &&& recorded[k].month == k + 1
        &&& 0 <= recorded[k].total_paid <= budget
        &&& recorded[k].total_paid == total_paid(recorded[k].payments)
        &&& recorded[k].remaining_balance >= 0
    } by {
        if k < months.len() {
            assert(recorded[k] == months[k]);
        }
    }
}

/// A simulation on course stays on course until it is complete, and is complete within the
/// months allowed.
pub proof fn lemma_run_stays_on_course(
    strategy: PayoffStrategy,
    budget: int,
    opening: Seq<DebtModel>,
    s: Seq<DebtModel>,
    month: int,
    months: Seq<MonthModel>,
)
    requires
        on_course(strategy, budget, opening, s, month, months),
        1 <= month <= MAX_PAYOFF_MONTHS + 1,
        run(strategy, budget, s, month, months) is Complete,
    ensures
        ({
            let done = run(strategy, budget, s, month, months);
            &&& on_course(strategy, budget, opening, done->states, done->months.len() as int + 1, done->months)
            &&& all_paid(done->states)
            &&& done->months.len() <= MAX_PAYOFF_MONTHS
        }),
    decreases MAX_PAYOFF_MONTHS + 1 - month,
{
    if !all_paid(s) && month <= MAX_PAYOFF_MONTHS {
        let ordered = monthly_order(strategy, s);
        lemma_month_stays_on_course(strategy, budget, opening, s, month, months);
        lemma_run_stays_on_course(
            strategy,
            budget,
            opening,
            month_end(ordered, budget, month),
            month + 1,
            months.push(month_record(ordered, budget, month)),
        );
    }
}

/// The working set with which a plan begins is on course.
pub proof fn lemma_opening_is_on_course(strategy: PayoffStrategy, budget: int, debts: Seq<Debt>)
    requires
        forall|i: int| 0 <= i < debts.len() ==> (#[trigger] debts[i]).is_plannable(),
        rejection(budget, debts) is None,
    ensures
        on_course(
            strategy,
            budget,
            opening_order(strategy, initial_states(debts)),
            opening_order(strategy, initial_states(debts)),
            1,
            Seq::empty(),
        ),
        opening_order(strategy, initial_states(debts)).len() == debts.len(),
        total_balance(opening_order(strategy, initial_states(debts))) == total_balance(initial_states(debts)),
        serviceable(initial_states(debts), budget),
{
    let first = initial_states(debts);
    let opening = opening_order(strategy, first);
    assert forall|i: int| 0 <= i < first.len() implies well_formed(#[trigger] first[i]) && first[i].payoff_month
        is None && interests(first)[i] == 0 by {
        assert(debts[i].is_plannable());
    }
    lemma_sum_below(interests(first), 0);
    lemma_sum_nonnegative(interests(first));
    lemma_order_keeps(strategy, first, budget);
    lemma_stable_sort_preserves(strategy, first, |d: DebtModel| d.payoff_month is None);
    assert forall|i: int| 0 <= i < opening.len() implies payoff_recorded_duly(
        strategy,
        budget,
        opening,
        #[trigger] opening[i],
        1,
    ) by {
        assert(opening[i].payoff_month is None);
    }
    assert(Seq::<MonthModel>::empty().map_values(|m: MonthModel| m.total_paid) =~= Seq::<int>::empty());
}

/// What every plan keeps to:
/// - it has at most as many months as are allowed, numbered from 1;
/// - the payments of each month add up to the month's total, which never exceeds the budget;
/// - every debt ends below the threshold, with a payoff month that lies in the plan, or is
///   0 for a debt that never was owed;
/// - the last month of the plan is the payoff month of some debt, so that the number of
///   months is the greatest payoff month;
/// - all that was paid is what was owed at first and the interest, less what is left.
pub proof fn lemma_plan_is_consistent(strategy: PayoffStrategy, budget: int, debts: Seq<Debt>, start: int)
    requires
        forall|i: int| 0 <= i < debts.len() ==> (#[trigger] debts[i]).is_plannable(),
        planned(strategy, budget, debts, start) is Ok,
    ensures
        ({
            let plan = planned(strategy, budget, debts, start)->Ok_0;
            let left = plan_outcome(strategy, budget, debts)->Ok_0->states;
            &&& plan.months.len() <= MAX_PAYOFF_MONTHS
            &&& plan.summaries.len() == debts.len()
            &&& forall|k: int|
                0 <= k < plan.months.len() ==> {
                    &&& (#[trigger] plan.months[k]) == month_record(
                        entering(strategy, budget, opening_order(strategy, initial_states(debts)), k + 1),
                        budget,
                        k + 1,
                    )
                    &&& plan.months[k].month == k + 1
                    &&& 0 <= plan.months[k].total_paid <= budget
                    &&& plan.months[k].total_paid == total_paid(plan.months[k].payments)
                }
            &&& forall|i: int|
                0 <= i < plan.summaries.len() ==> 0 <= (#[trigger] plan.summaries[i]).payoff_month
                    <= plan.months.len()
            &&& plan.months.len() > 0 ==> exists|i: int|
                0 <= i < plan.summaries.len() && (#[trigger] plan.summaries[i]).payoff_month
                    == plan.months.len()
            &&& all_paid(left)
            &&& plan.months.len() > 0 ==> plan.months.last().remaining_balance == total_balance(left)
            &&& paid_in_all(plan.months) == total_balance(initial_states(debts)) + plan.total_interest
                - total_balance(left)
            &&& plan.total_interest >= 0
        }),
{
    let opening = opening_order(strategy, initial_states(debts));
    lemma_opening_is_on_course(strategy, budget, debts);
    lemma_run_stays_on_course(strategy, budget, opening, opening, 1, Seq::empty());
    let plan = planned(strategy, budget, debts, start)->Ok_0;
    let done = simulate(strategy, budget, debts);
    let left = done->states;
    assert forall|k: int| 0 <= k < interests(left).len() implies interests(left)[k] >= 0 by {
        assert(well_formed(left[k]));
    }
    lemma_sum_nonnegative(interests(left));
    assert forall|i: int| 0 <= i < plan.summaries.len() implies 0 <= (#[trigger] plan.summaries[i]).payoff_month
        <= plan.months.len() by {
        assert(payoff_recorded_duly(strategy, budget, opening, left[i], plan.months.len() as int + 1));
    }
    if plan.months.len() > 0 {
        let i = choose|i: int| 0 <= i < left.len() && (#[trigger] left[i]).payoff_month == Some(
            plan.months.len() as int,
        );
        assert(plan.summaries[i].payoff_month == plan.months.len());
    }
}

/// A month of a plan in which more is owed than the budget spends the whole budget, provided
/// that the surplus over the minimum payments can be placed: it is nothing, or it exceeds
/// the threshold and the first debt still owed can take all of it. In every month, no more
/// than the budget is spent.
pub proof fn lemma_plan_spends_budget_while_more_is_owed(
    strategy: PayoffStrategy,
    budget: int,
    debts: Seq<Debt>,
    start: int,
    k: int,
)
    requires
        forall|i: int| 0 <= i < debts.len() ==> (#[trigger] debts[i]).is_plannable(),
        planned(strategy, budget, debts, start) is Ok,
        0 <= k < planned(strategy, budget, debts, start)->Ok_0.months.len(),
    ensures
        ({
            let plan = planned(strategy, budget, debts, start)->Ok_0;
            let ordered = entering(strategy, budget, opening_order(strategy, initial_states(debts)), k + 1);
            &&& plan.months[k].total_paid <= budget
            &&& total_balance(accrue(ordered)) > budget && uses_whole_budget(ordered, budget, k + 1)
                ==> plan.months[k].total_paid == budget
            &&& plan.months[k].total_paid == budget <==> uses_whole_budget(ordered, budget, k + 1)
        }),
{
    let opening = opening_order(strategy, initial_states(debts));
    lemma_plan_is_consistent(strategy, budget, debts, start);
    lemma_opening_is_on_course(strategy, budget, debts);
    lemma_states_stay_serviceable(strategy, budget, opening, k as nat);
    let ordered = entering(strategy, budget, opening, k + 1);
    lemma_monthly_order_keeps(strategy, state_after(strategy, budget, opening, k as nat), budget);
    lemma_month_pays_at_most_budget(ordered, budget, k + 1);
}

/// Every month of a simulation is entered in the strategy's order: under the avalanche
/// strategy in the order by rate made at the opening, under the snowball strategy in the
/// order by balance made anew.
pub proof fn lemma_months_are_entered_in_order(
    strategy: PayoffStrategy,
    budget: int,
    first: Seq<DebtModel>,
    month: int,
)
    requires
        month >= 1,
    ensures
        in_order(strategy, entering(strategy, budget, opening_order(strategy, first), month)),
    decreases month,
{
    let opening = opening_order(strategy, first);
    match strategy {
        PayoffStrategy::Snowball => {
            lemma_stable_sort_is_in_order(strategy, state_after(strategy, budget, opening, (month - 1) as nat));
        },
        PayoffStrategy::Avalanche => {
            if month == 1 {
                lemma_stable_sort_is_in_order(strategy, first);
            } else {
                lemma_months_are_entered_in_order(strategy, budget, first, month - 1);
                lemma_month_keeps_rate_order(entering(strategy, budget, opening, month - 1), budget, month - 1);
            }
        },
    }
}

/// A working set that the budget can serve stays so, month after month.
pub proof fn lemma_states_stay_serviceable(
    strategy: PayoffStrategy,
    budget: int,
    opening: Seq<DebtModel>,
    passed: nat,
)
    requires
        serviceable(opening, budget),
    ensures
        serviceable(state_after(strategy, budget, opening, passed), budget),
    decreases passed,
{
    if passed > 0 {
        lemma_states_stay_serviceable(strategy, budget, opening, (passed - 1) as nat);
        let before = state_after(strategy, budget, opening, (passed - 1) as nat);
        lemma_monthly_order_keeps(strategy, before, budget);
        lemma_month(monthly_order(strategy, before), budget, passed as int);
    }
}

/// The payoff month that a plan reports for a debt is the month in which the debt went
/// from owed to paid off: it entered that month with its balance at or above the threshold
/// and left it, as the plan's end finds it, below. A debt reported with month 0 never was
/// owed: the plan's end finds it as it was at the opening, below the threshold.
pub proof fn lemma_payoff_month_is_when_balance_fell(
    strategy: PayoffStrategy,
    budget: int,
    debts: Seq<Debt>,
    start: int,
    i: int,
)
    requires
        forall|i: int| 0 <= i < debts.len() ==> (#[trigger] debts[i]).is_plannable(),
        planned(strategy, budget, debts, start) is Ok,
        0 <= i < debts.len(),
    ensures
        ({
            let plan = planned(strategy, budget, debts, start)->Ok_0;
            let left = plan_outcome(strategy, budget, debts)->Ok_0->states;
            let opening = opening_order(strategy, initial_states(debts));
            let month = plan.summaries[i].payoff_month;
            &&& left.len() == debts.len()
            &&& plan.summaries[i] == summary_of(left[i])
            &&& !is_active(left[i])
            &&& month != 0 ==> 1 <= month <= plan.months.len() && came_of_debt_owed_in(
                strategy,
                budget,
                opening,
                left[i],
                month,
            )
            &&& month == 0 ==> exists|j: int| 0 <= j < opening.len() && #[trigger] opening[j] == left[i]
        }),
{
    let opening = opening_order(strategy, initial_states(debts));
    lemma_opening_is_on_course(strategy, budget, debts);
    lemma_run_stays_on_course(strategy, budget, opening, opening, 1, Seq::empty());
    let plan = planned(strategy, budget, debts, start)->Ok_0;
    let left = simulate(strategy, budget, debts)->states;
    assert(payoff_recorded_duly(strategy, budget, opening, left[i], plan.months.len() as int + 1));
    assert(!is_active(left[i]));
}

// ----- completion -----

/// The minimum payment alone pays the debt off within `months` months: it exceeds a
/// month's interest on the present balance by at least the balance's share of each month.
pub open spec fn pays_down_within(d: DebtModel, months: int) -> bool {
    !is_active(d) || d.balance <= months * (d.min_payment - monthly_interest(d.balance, d.interest_rate))
}

/// A month brings every debt that its minimum payment pays down one month nearer to
/// its payoff.
pub proof fn lemma_month_pays_down(ordered: Seq<DebtModel>, budget: int, month: int, months: int, i: int)
    requires
        serviceable(ordered, budget),
        0 <= i < ordered.len(),
        months >= 1,
        pays_down_within(ordered[i], months),
    ensures
        pays_down_within(month_end(ordered, budget, month)[i], months - 1),
{
    let d = ordered[i];
    let accrued = accrue(ordered);
    let paid = pay_minimums(accrued, month);
    let end = month_end(ordered, budget, month)[i];
    lemma_month(ordered, budget, month);
    lemma_accrue(ordered);
    lemma_pay_minimums(accrued, month);
    lemma_first_where(paid, |d: DebtModel| is_active(d));
    if !is_active(d) {
        lemma_paid_debt_is_left_alone(ordered, budget, month, i);
    } else if is_active(end) {
        assert(well_formed(d));
        assert(well_formed(accrued[i]));
        assert(well_formed(paid[i]));
        let interest = monthly_interest(d.balance, d.interest_rate);
        let gain = d.min_payment - interest;
        lemma_monthly_interest_nonnegative(d.balance, d.interest_rate);
        assert(gain > 0) by (nonlinear_arith)
            requires
                d.balance <= months * gain,
                d.balance > 0,
                months >= 1,
        ;
        assert(end.balance <= paid[i].balance);
        assert(is_active(paid[i]));
        assert(paid[i].balance == d.balance - gain);
        lemma_monthly_interest_monotone(end.balance, d.balance, d.interest_rate);
        let later_gain = end.min_payment - monthly_interest(end.balance, end.interest_rate);
        assert(end.balance <= (months - 1) * later_gain) by (nonlinear_arith)
            requires
                end.balance <= d.balance - gain,
                d.balance <= months * gain,
                later_gain >= gain,
                gain > 0,
                months >= 1,
        ;
    }
}

/// If the minimum payment of every debt pays it down within the months that are left, the
/// simulation is completed.
pub proof fn lemma_run_completes(
    strategy: PayoffStrategy,
    budget: int,
    s: Seq<DebtModel>,
    month: int,
    months: Seq<MonthModel>,
)
    requires
        serviceable(s, budget),
        1 <= month <= MAX_PAYOFF_MONTHS + 1,
        forall|i: int| 0 <= i < s.len() ==> pays_down_within(#[trigger] s[i], MAX_PAYOFF_MONTHS + 1 - month),
    ensures
        run(strategy, budget, s, month, months) is Complete,
    decreases MAX_PAYOFF_MONTHS + 1 - month,
{
    let left = MAX_PAYOFF_MONTHS + 1 - month;
    if all_paid(s) {
    } else if month > MAX_PAYOFF_MONTHS {
        assert forall|i: int| 0 <= i < s.len() implies !is_active(#[trigger] s[i]) by {
            assert(pays_down_within(s[i], 0));
            assert(0 * (s[i].min_payment - monthly_interest(s[i].balance, s[i].interest_rate)) == 0);
        }
    } else {
        let ordered = monthly_order(strategy, s);
        let next = month_end(ordered, budget, month);
        lemma_monthly_order_keeps(strategy, s, budget);
        lemma_month(ordered, budget, month);
        match strategy {
            PayoffStrategy::Avalanche => {},
            PayoffStrategy::Snowball => {
                lemma_stable_sort_preserves(strategy, s, |d: DebtModel| pays_down_within(d, left));
            },
        }
        assert forall|i: int| 0 <= i < next.len() implies pays_down_within(#[trigger] next[i], left - 1) by {
            assert(pays_down_within(ordered[i], left));
            lemma_month_pays_down(ordered, budget, month, left, i);
        }
        lemma_run_completes(strategy, budget, next, month + 1, months.push(month_record(ordered, budget, month)));
    }
}

/// A plan is made whenever the debts can be planned, the budget covers the minimum
/// payments, and the minimum payment of every debt pays it down within the months allowed.
pub proof fn lemma_plan_is_made_if_minimums_pay_down(
    strategy: PayoffStrategy,
    budget: int,
    debts: Seq<Debt>,
    start: int,
)
    requires
        forall|i: int| 0 <= i < debts.len() ==> (#[trigger] debts[i]).is_plannable(),
        rejection(budget, debts) is None,
        forall|i: int|
            0 <= i < debts.len() ==> pays_down_within(initial_states(debts)[i], MAX_PAYOFF_MONTHS as int),
    ensures
        planned(strategy, budget, debts, start) is Ok,
{
    let opening = initial_states(debts);
    lemma_opening_is_on_course(strategy, budget, debts);
    lemma_stable_sort_preserves(strategy, opening, |d: DebtModel| pays_down_within(d, MAX_PAYOFF_MONTHS as int));
    lemma_run_completes(strategy, budget, opening_order(strategy, opening), 1, Seq::empty());
}

/// No plan is made if more is owed at first than the budget can pay in the months allowed:
/// interest only adds to what is owed.
pub proof fn lemma_no_plan_if_budget_cannot_pay(strategy: PayoffStrategy, budget: int, debts: Seq<Debt>, start: int)
    requires
        forall|i: int| 0 <= i < debts.len() ==> (#[trigger] debts[i]).is_plannable(),
        rejection(budget, debts) is None,
        total_balance(initial_states(debts)) > debts.len() * ZERO_BALANCE_THRESHOLD + MAX_PAYOFF_MONTHS * budget,
    ensures
        planned(strategy, budget, debts, start) == Err::<PlanModel, Rejection>(Rejection::PayoffExceeded),
{
    lemma_opening_is_on_course(strategy, budget, debts);
    lemma_run_fails_beyond_payable(
        strategy,
        budget,
        opening_order(strategy, initial_states(debts)),
        1,
        Seq::empty(),
    );
}

} // verus!
