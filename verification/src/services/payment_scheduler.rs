use vstd::prelude::*;
use vstd::string::StringExecFns;
use crate::calendar::{
    CalendarDay, civil_day, civil_month, civil_year, day_number, FIRST_DAY, iso_date_text, LAST_DAY,
};
use crate::models::debt::Debt;
use crate::services::summation::{lemma_sum_push, sum};
use crate::text::{format_padded, padded_text};

verus! {

/// The day of the month on which payments are due.
pub const DUE_DAY: u32 = 15;

/// A payment that is due. The amount is in millionths of a currency unit.
#[derive(Debug)]
pub struct ScheduledPayment {
    pub debt_id: i64,
    pub debt_name: String,
    pub amount: i64,
    pub due_date: String,
    pub is_minimum: bool,
}

/// The payments due in one month.
#[derive(Debug)]
pub struct PaymentSchedule {
    pub month: String,  // YYYY-MM format
    pub total_amount: i128,
    pub payments: Vec<ScheduledPayment>,
}

/// A payment that is due, as contracts speak of it.
pub struct ScheduledPaymentModel {
    pub debt_id: int,
    pub debt_name: Seq<char>,
    pub amount: int,
    pub due_date: Seq<char>,
    pub is_minimum: bool,
}

impl View for ScheduledPayment {
    type V = ScheduledPaymentModel;

    open spec fn view(&self) -> ScheduledPaymentModel {
        ScheduledPaymentModel {
            debt_id: self.debt_id as int,
            debt_name: self.debt_name@,
            amount: self.amount as int,
            due_date: self.due_date@,
            is_minimum: self.is_minimum,
        }
    }
}

pub open spec fn scheduled_models(payments: Seq<ScheduledPayment>) -> Seq<ScheduledPaymentModel> {
    payments.map_values(|p: ScheduledPayment| p@)
}

/// The number of the day `year`-`month`-`day`, if there is such a day and a `CalendarDay`
/// can hold it.
pub open spec fn calendar_day_number(year: int, month: int, day: int) -> Option<int> {
    if i32::MIN <= year <= i32::MAX && 0 <= month <= u32::MAX {
        match day_number(year, month, day) {
            Some(n) => if FIRST_DAY <= n <= LAST_DAY {
                Some(n)
            } else {
                None
            },
            None => None,
        }
    } else {
        None
    }
}

/// The day `year`-`month`-`day`, if there is such a day and a `CalendarDay` can hold it.
pub fn day_in_month(year: i64, month: i64, day: u32) -> (date: Option<CalendarDay>)
    ensures
        match date {
            Some(d) => calendar_day_number(year as int, month as int, day as int) == Some(d@),
            None => calendar_day_number(year as int, month as int, day as int) is None,
        },
{
    if year < i32::MIN as i64 || year > i32::MAX as i64 || month < 0 || month > u32::MAX as i64 {
        return None;
    }
    CalendarDay::from_ymd(year as i32, month as u32, day)
}

/// The number of the due day of the month `month` of `year`, or `fallback` if there is no
/// such day.
pub open spec fn due_day_number(year: int, month: int, fallback: int) -> int {
    match calendar_day_number(year, month, DUE_DAY as int) {
        Some(n) => n,
        None => fallback,
    }
}

/// The due date of the month `month` of `year`, written out; that of `fallback` if there
/// is no such day.
fn due_date_in(year: i64, month: i64, fallback: CalendarDay) -> (text: String)
    ensures
        text@ == iso_date_text(due_day_number(year as int, month as int, fallback@)),
{
    // Calculate due date (the 15th of the month)
    match day_in_month(year, month, DUE_DAY) {
        Some(due) => due.to_iso_string(),
        None => fallback.to_iso_string(),
    }
}

/// The minimum payments of the debts with a positive balance, each due on `due_date`, in
/// the order of the debts.
pub open spec fn minimum_schedule(debts: Seq<Debt>, due_date: Seq<char>) -> Seq<ScheduledPaymentModel>
    decreases debts.len(),
{
    if debts.len() == 0 {
        Seq::empty()
    } else if debts.last().balance > 0 {
        minimum_schedule(debts.drop_last(), due_date).push(
            ScheduledPaymentModel {
                debt_id: debts.last().id as int,
                debt_name: debts.last().name@,
                amount: debts.last().min_payment as int,
                due_date,
                is_minimum: true,
            },
        )
    } else {
        minimum_schedule(debts.drop_last(), due_date)
    }
}

/// The amounts of the payments.
pub open spec fn scheduled_amounts(payments: Seq<ScheduledPaymentModel>) -> Seq<int> {
    payments.map_values(|p: ScheduledPaymentModel| p.amount)
}

/// Schedules the minimum payment of every debt with a positive balance; returns the
/// payments and their total.
fn schedule_minimums(debts: &Vec<Debt>, due_date: &String) -> (out: (Vec<ScheduledPayment>, i128))
    ensures
        scheduled_models(out.0@) == minimum_schedule(debts@, due_date@),
        out.1 == sum(scheduled_amounts(minimum_schedule(debts@, due_date@))),
{
    let mut payments: Vec<ScheduledPayment> = Vec::new();
    let mut total: i128 = 0;
    let mut i: usize = 0;
    proof {
        assert(debts@.take(0) =~= Seq::<Debt>::empty());
        assert(scheduled_models(payments@) =~= minimum_schedule(debts@.take(0), due_date@));
        assert(scheduled_amounts(minimum_schedule(debts@.take(0), due_date@)) =~= Seq::<int>::empty());
    }
    while i < debts.len()
        invariant
            i <= debts.len(),
            scheduled_models(payments@) == minimum_schedule(debts@.take(i as int), due_date@),
            total == sum(scheduled_amounts(minimum_schedule(debts@.take(i as int), due_date@))),
            -(i as int) * 0x8000_0000_0000_0000 <= total <= i as int * 0x8000_0000_0000_0000,
        decreases debts.len() - i,
    {
        let debt = &debts[i];
        proof {
            assert(debts@.take(i as int + 1).drop_last() =~= debts@.take(i as int));
            assert(debts@.take(i as int + 1).last() == debts@[i as int]);
            let wide = i as int;
            assert(wide * 0x8000_0000_0000_0000 <= 0xffff_ffff_ffff_ffff * 0x8000_0000_0000_0000)
                by (nonlinear_arith)
                requires
                    0 <= wide <= 0xffff_ffff_ffff_ffff,
            ;
            assert((wide + 1) * 0x8000_0000_0000_0000 == wide * 0x8000_0000_0000_0000
                + 0x8000_0000_0000_0000) by (nonlinear_arith);
        }
        if debt.balance > 0 {
            let ghost before = scheduled_models(payments@);
            let payment = ScheduledPayment {
                debt_id: debt.id,
                debt_name: debt.name.clone(),
                amount: debt.min_payment,
                due_date: due_date.clone(),
                is_minimum: true,
            };
            proof {
                assert(scheduled_amounts(before.push(payment@)) =~= scheduled_amounts(before).push(
                    debt.min_payment as int,
                ));
                lemma_sum_push(scheduled_amounts(before), debt.min_payment as int);
            }
            payments.push(payment);
            proof {
                assert(scheduled_models(payments@) =~= before.push(payment@));
            }
            total = total + debt.min_payment as i128;
        }
        i += 1;
    }
    proof {
        assert(debts@.take(debts.len() as int) =~= debts@);
    }
    (payments, total)
}

/// The day that stands for the month `offset` months after that of `today`: `today` itself
/// for no offset, else the first day of that month, or `today` if there is no such day.
pub open spec fn schedule_day(today: int, offset: int) -> int {
    if offset == 0 {
        today
    } else {
        let new_month = civil_month(today) + offset;
        match calendar_day_number(civil_year(today) + (new_month - 1) / 12, (new_month - 1) % 12 + 1, 1) {
            Some(n) => n,
            None => today,
        }
    }
}

/// The month of a day, written as year and month.
pub open spec fn month_text(day: int) -> Seq<char> {
    padded_text(civil_year(day), 4) + seq!['-'] + padded_text(civil_month(day), 2)
}

pub struct PaymentScheduler;

impl PaymentScheduler {
    /// Generate a payment schedule for the current month based on debts: the minimum
    /// payment of every debt with a positive balance, due on the 15th of the month of
    /// `today`.
    pub fn generate_monthly_schedule(debts: Vec<Debt>, today: CalendarDay) -> (schedule: Vec<ScheduledPayment>)
        ensures
            scheduled_models(schedule@) == minimum_schedule(
                debts@,
                iso_date_text(due_day_number(civil_year(today@), civil_month(today@), today@)),
            ),
    {
        let due_date = due_date_in(today.year() as i64, today.month() as i64, today);
        schedule_minimums(&debts, &due_date).0
    }

    /// Generate payment schedules for the next N months, that of `today` being the first:
    /// for each month its name, the minimum payments due on its 15th, and their total.
    pub fn generate_future_schedules(debts: Vec<Debt>, months_ahead: u32, today: CalendarDay) -> (schedules: Vec<
        PaymentSchedule,
    >)
        ensures
            schedules.len() == months_ahead,
            forall|k: int|
                0 <= k < months_ahead ==> {
                    let target = schedule_day(today@, k);
                    let due = iso_date_text(due_day_number(civil_year(target), civil_month(target), target));
                    &&& (#[trigger] schedules[k]).month@ == month_text(target)
                    &&& scheduled_models(schedules[k].payments@) == minimum_schedule(debts@, due)
                    &&& schedules[k].total_amount == sum(scheduled_amounts(minimum_schedule(debts@, due)))
                },
    {
        let mut schedules: Vec<PaymentSchedule> = Vec::new();
        let mut month_offset: u32 = 0;
        while month_offset < months_ahead
            invariant
                month_offset <= months_ahead,
                schedules.len() == month_offset,
                forall|k: int|
                    0 <= k < month_offset ==> {
                        let target = schedule_day(today@, k);
                        let due = iso_date_text(due_day_number(civil_year(target), civil_month(target), target));
                        &&& (#[trigger] schedules[k]).month@ == month_text(target)
                        &&& scheduled_models(schedules[k].payments@) == minimum_schedule(debts@, due)
                        &&& schedules[k].total_amount == sum(scheduled_amounts(minimum_schedule(debts@, due)))
                    },
            decreases months_ahead - month_offset,
        {
            let target_date = if month_offset == 0 {
                today
            } else {
                // Add months
                let new_month: i64 = today.month() as i64 + month_offset as i64;
                let year_offset = (new_month - 1) / 12;
                let month = ((new_month - 1) % 12) + 1;
                let year = today.year() as i64 + year_offset;
                match day_in_month(year, month, 1) {
                    Some(first) => first,
                    None => today,
                }
            };
            assert(target_date@ == schedule_day(today@, month_offset as int));
            let year = target_date.year();
            let month = target_date.month();
            proof {
                reveal_strlit("-");
            }
            let mut month_str = format_padded(year as i64, 4);
            month_str.append("-");
            month_str.append(format_padded(month as i64, 2).as_str());
            let due_date = due_date_in(year as i64, month as i64, target_date);
            let (payments, total_amount) = schedule_minimums(&debts, &due_date);
            schedules.push(PaymentSchedule { month: month_str, total_amount, payments });
            month_offset += 1;
        }
        schedules
    }

    /// The year and month of the next due date: those of `today`, or of the month after if
    /// the due day of this month has passed.
    pub open spec fn next_due_month(today: int) -> (int, int) {
        if civil_day(today) > DUE_DAY {
            if civil_month(today) == 12 {
                (civil_year(today) + 1, 1)
            } else {
                (civil_year(today), civil_month(today) + 1)
            }
        } else {
            (civil_year(today), civil_month(today))
        }
    }

    /// Calculate the next due date for a debt payment: the 15th of this month, or of the next
    /// if the 15th has passed.
    pub fn get_next_due_date(today: CalendarDay) -> (due_date: String)
        ensures
            due_date@ == iso_date_text(
                due_day_number(Self::next_due_month(today@).0, Self::next_due_month(today@).1, today@),
            ),
    {
        let year = today.year() as i64;
        let month = today.month() as i64;
        let day = today.day();
        // If we've passed the due date this month, return next month's due date
        let (target_year, target_month) = if day > DUE_DAY {
            if month == 12 {
                (year + 1, 1)
            } else {
                (year, month + 1)
            }
        } else {
            (year, month)
        };
        due_date_in(target_year, target_month, today)
    }
}

} // verus!
