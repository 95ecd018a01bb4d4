use vstd::prelude::*;
use crate::calendar::{
    CalendarDay, civil_month, civil_year, days_from_monday, FIRST_DAY, iso_date_text,
    iso_string_of_day, LAST_DAY, month_start_text, parse_day, parsed_day,
};
use crate::services::payment_scheduler::{calendar_day_number, day_in_month};
use crate::services::summation::{
    first_where, lemma_first_where, lemma_first_where_is, lemma_sum_insert, lemma_sum_take_step,
    lemma_sum_update, sum,
};
use crate::text::{join, texts};

verus! {

/// What was spent in one interval. The amount is in millionths of a currency unit.
#[derive(Debug, Clone)]
pub struct TrendPoint {
    pub date: String,
    pub amount: i128,
    pub transaction_count: i128,
}

#[derive(Debug, Clone)]
pub struct SpendingTrends {
    pub data_points: Vec<TrendPoint>,
    pub total_spending: i128,
    pub average_per_interval: i128,
}

/// What the store reports of one day, or of one month: what was spent, and in how many
/// transactions.
#[derive(Debug, Clone)]
pub struct SpendingRow {
    pub date: String,
    pub amount: i64,
    pub transaction_count: i64,
}

/// The interval by which spending is summed up.
#[derive(Debug, Clone, Copy, PartialEq, Eq, Structural)]
pub enum TrendInterval {
    Daily,
    Weekly,
    Monthly,
}

impl TrendInterval {
    /// The interval that a name stands for, if it is the name of one.
    pub open spec fn named(name: Seq<char>) -> Option<TrendInterval> {
        if name == "daily"@ {
            Some(TrendInterval::Daily)
        } else if name == "weekly"@ {
            Some(TrendInterval::Weekly)
        } else if name == "monthly"@ {
            Some(TrendInterval::Monthly)
        } else {
            None
        }
    }

    /// Reads an interval from its name; any other text is refused.
    pub fn parse(name: &str) -> (interval: Result<TrendInterval, String>)
        ensures
            match TrendInterval::named(name@) {
                Some(i) => interval == Ok::<TrendInterval, String>(i),
                None => interval matches Err(message) && message@ == "Invalid interval: "@ + name@,
            },
    {
        let given = name.to_owned();
        if given == "daily".to_owned() {
            Ok(TrendInterval::Daily)
        } else if given == "weekly".to_owned() {
            Ok(TrendInterval::Weekly)
        } else if given == "monthly".to_owned() {
            Ok(TrendInterval::Monthly)
        } else {
            Err(join("Invalid interval: ", name))
        }
    }
}

/// What was spent in one interval, as contracts speak of it.
pub struct PointModel {
    pub date: Seq<char>,
    pub amount: int,
    pub transaction_count: int,
}

impl View for TrendPoint {
    type V = PointModel;

    open spec fn view(&self) -> PointModel {
        PointModel {
            date: self.date@,
            amount: self.amount as int,
            transaction_count: self.transaction_count as int,
        }
    }
}

pub open spec fn point_models(points: Seq<TrendPoint>) -> Seq<PointModel> {
    points.map_values(|p: TrendPoint| p@)
}

pub open spec fn point_amounts(points: Seq<PointModel>) -> Seq<int> {
    points.map_values(|p: PointModel| p.amount)
}

/// The point that a row of the store gives.
pub open spec fn point_of(row: SpendingRow) -> PointModel {
    PointModel { date: row.date@, amount: row.amount as int, transaction_count: row.transaction_count as int }
}

/// A quotient rounded toward zero; nothing where the divisor is not positive.
pub open spec fn quotient(total: int, count: int) -> int {
    if count <= 0 {
        0
    } else if total >= 0 {
        total / count
    } else {
        -((-total) / count)
    }
}

// ----- weeks -----

/// What was spent in one week, the week given by the number of its Monday.
pub struct WeekModel {
    pub monday: int,
    pub amount: int,
    pub transaction_count: int,
}

/// What was spent in one week.
pub struct Week {
    pub monday: i32,
    pub amount: i128,
    pub transaction_count: i128,
}

impl View for Week {
    type V = WeekModel;

    open spec fn view(&self) -> WeekModel {
        WeekModel {
            monday: self.monday as int,
            amount: self.amount as int,
            transaction_count: self.transaction_count as int,
        }
    }
}

pub open spec fn week_models(weeks: Seq<Week>) -> Seq<WeekModel> {
    weeks.map_values(|w: Week| w@)
}

/// The Monday of the week of the day that a text names in the form year-month-day, if it
/// names a day of the years 1 to 9999.
pub open spec fn monday_of(date: Seq<char>) -> Option<int> {
    match parsed_day(date, "%Y-%m-%d"@) {
        Ok(day) => if FIRST_DAY <= day <= LAST_DAY {
            Some(day - days_from_monday(day))
        } else {
            None
        },
        Err(_) => None,
    }
}

/// The weeks with one more day's spending: added to its week if the week is there, else
/// as a week of its own, at its place in the order of the weeks.
pub open spec fn with_day(weeks: Seq<WeekModel>, monday: int, amount: int, count: int) -> Seq<WeekModel> {
    let at = first_where(weeks, |w: WeekModel| w.monday >= monday);
    if at < weeks.len() && weeks[at].monday == monday {
        weeks.update(
            at,
            WeekModel {
                monday,
                amount: weeks[at].amount + amount,
                transaction_count: weeks[at].transaction_count + count,
            },
        )
    } else {
        weeks.insert(at, WeekModel { monday, amount, transaction_count: count })
    }
}

/// The spending of the days summed up by week, the weeks in order; a day whose date cannot
/// be read is passed over.
pub open spec fn weekly(rows: Seq<SpendingRow>) -> Seq<WeekModel>
    decreases rows.len(),
{
    if rows.len() == 0 {
        Seq::empty()
    } else {
        match monday_of(rows.last().date@) {
            Some(monday) => with_day(
                weekly(rows.drop_last()),
                monday,
                rows.last().amount as int,
                rows.last().transaction_count as int,
            ),
            None => weekly(rows.drop_last()),
        }
    }
}

pub open spec fn week_amounts(weeks: Seq<WeekModel>) -> Seq<int> {
    weeks.map_values(|w: WeekModel| w.amount)
}

/// The point of a week: its Monday written out, and what was spent.
pub open spec fn week_point(week: WeekModel) -> PointModel {
    PointModel { date: iso_date_text(week.monday), amount: week.amount, transaction_count: week.transaction_count }
}

/// A day's spending adds its amount to the weeks' total.
proof fn lemma_with_day_total(weeks: Seq<WeekModel>, monday: int, amount: int, count: int)
    ensures
        sum(week_amounts(with_day(weeks, monday, amount, count))) == sum(week_amounts(weeks)) + amount,
{
    lemma_first_where(weeks, |w: WeekModel| w.monday >= monday);
    let at = first_where(weeks, |w: WeekModel| w.monday >= monday);
    if at < weeks.len() && weeks[at].monday == monday {
        assert(week_amounts(with_day(weeks, monday, amount, count)) =~= week_amounts(weeks).update(
            at,
            weeks[at].amount + amount,
        ));
        lemma_sum_update(week_amounts(weeks), at, weeks[at].amount + amount);
    } else {
        assert(week_amounts(with_day(weeks, monday, amount, count)) =~= week_amounts(weeks).insert(at, amount));
        lemma_sum_insert(week_amounts(weeks), at, amount);
    }
}

/// Sums up the spending of the days by week; returns the weeks and what was spent in all
/// of them.
fn group_by_week(rows: &Vec<SpendingRow>) -> (out: (Vec<Week>, i128))
    ensures
        week_models(out.0@) == weekly(rows@),
        out.1 == sum(week_amounts(weekly(rows@))),
        -0x7fff_ffff_ffff_ffff_ffff_ffff_ffff_ffff <= out.1,
        forall|k: int| 0 <= k < out.0.len() ==> -5 <= (#[trigger] out.0[k]).monday <= LAST_DAY,
{
    let mut weeks: Vec<Week> = Vec::new();
    let mut total: i128 = 0;
    let mut i: usize = 0;
    proof {
        assert(rows@.take(0) =~= Seq::<SpendingRow>::empty());
        assert(week_models(weeks@) =~= weekly(rows@.take(0)));
        assert(week_amounts(weekly(rows@.take(0))) =~= Seq::<int>::empty());
    }
    while i < rows.len()
        invariant
            i <= rows.len(),
            week_models(weeks@) == weekly(rows@.take(i as int)),
            total == sum(week_amounts(weekly(rows@.take(i as int)))),
            -(i as int) * 0x8000_0000_0000_0000 <= total <= i as int * 0x8000_0000_0000_0000,
            forall|k: int|
                0 <= k < weeks.len() ==> {
                    &&& -5 <= (#[trigger] weeks[k]).monday <= LAST_DAY
                    &&& -(i as int) * 0x8000_0000_0000_0000 <= weeks[k].amount <= i as int
                        * 0x8000_0000_0000_0000
                    &&& -(i as int) * 0x8000_0000_0000_0000 <= weeks[k].transaction_count <= i as int
                        * 0x8000_0000_0000_0000
                },
        decreases rows.len() - i,
    {
        let row = &rows[i];
        let ghost before = weekly(rows@.take(i as int));
        proof {
            assert(rows@.take(i as int + 1).drop_last() =~= rows@.take(i as int));
            assert(rows@.take(i as int + 1).last() == rows@[i as int]);
            let wide = i as int;
            assert(wide * 0x8000_0000_0000_0000 <= 0xffff_ffff_ffff_ffff * 0x8000_0000_0000_0000)
                by (nonlinear_arith)
                requires
                    0 <= wide <= 0xffff_ffff_ffff_ffff,
            ;
            assert((wide + 1) * 0x8000_0000_0000_0000 == wide * 0x8000_0000_0000_0000
                + 0x8000_0000_0000_0000) by (nonlinear_arith);
        }
        match CalendarDay::parse(row.date.as_str(), "%Y-%m-%d") {
            Some(day) => {
                let monday: i32 = day.days_from_ce() - day.weekday_from_monday() as i32;
                let amount = row.amount as i128;
                let count = row.transaction_count as i128;
                proof {
                    assert(monday_of(row.date@) == Some(monday as int));
                    lemma_with_day_total(before, monday as int, amount as int, count as int);
                }
                let n = weeks.len();
                let mut at: usize = 0;
                while at < n && weeks[at].monday < monday
                    invariant
                        at <= n,
                        n == weeks.len(),
                        week_models(weeks@) == before,
                        forall|k: int| 0 <= k < at ==> !((#[trigger] before[k]).monday >= monday),
                    decreases n - at,
                {
                    at += 1;
                }
                proof {
                    lemma_first_where_is(before, |w: WeekModel| w.monday >= monday as int, at as int);
                }
                if at < n && weeks[at].monday == monday {
                    weeks[at].amount = weeks[at].amount + amount;
                    weeks[at].transaction_count = weeks[at].transaction_count + count;
                    proof {
                        assert(week_models(weeks@) =~= with_day(before, monday as int, amount as int, count as int));
                    }
                } else {
                    weeks.insert(at, Week { monday, amount, transaction_count: count });
                    proof {
                        assert(week_models(weeks@) =~= with_day(before, monday as int, amount as int, count as int));
                    }
                }
                total = total + amount;
            },
            None => {
                proof {
                    assert(monday_of(row.date@) is None);
                }
            },
        }
        i += 1;
    }
    proof {
        assert(rows@.take(rows.len() as int) =~= rows@);
        let wide = rows.len() as int;
        assert(wide * 0x8000_0000_0000_0000 <= 0xffff_ffff_ffff_ffff * 0x8000_0000_0000_0000) by (nonlinear_arith)
            requires
                0 <= wide <= 0xffff_ffff_ffff_ffff,
        ;
    }
    (weeks, total)
}

// ----- months -----

/// The number of a month among all months: twelve for each year, and the months of the year
/// from 0.
pub open spec fn month_index(year: int, month: int) -> int {
    year * 12 + (month - 1)
}

/// The text of the first day of the month with the index given, if there is such a day in
/// the years 1 to 9999.
pub open spec fn month_start_of(index: int) -> Option<Seq<char>> {
    match calendar_day_number(index / 12, index % 12 + 1, 1) {
        Some(day) => Some(month_start_text(day)),
        None => None,
    }
}

/// The first days of the months from the index `from` up to the index `to`, both
/// included; `None` if one of them is no day of the years 1 to 9999.
pub open spec fn month_starts_between(from: int, to: int) -> Option<Seq<Seq<char>>>
    decreases to - from + 1,
{
    if from > to {
        Some(Seq::empty())
    } else {
        match (month_starts_between(from, to - 1), month_start_of(to)) {
            (Some(before), Some(last)) => Some(before.push(last)),
            _ => None,
        }
    }
}

/// A month that is no day of the years 1 to 9999 leaves the months up to any later month
/// without their first days.
proof fn lemma_month_starts_fail(from: int, at: int, to: int)
    requires
        from <= at <= to,
        month_start_of(at) is None,
    ensures
        month_starts_between(from, to) is None,
    decreases to - at,
{
    if at < to {
        lemma_month_starts_fail(from, at, to - 1);
    }
}

/// The first days of the months from that of one date to that of another, or why they
/// are not given: both dates have to name days of the years 1 to 9999 in the form
/// year-month-day, and so has the first day of every month between them.
pub open spec fn month_starts_of(start_date: Seq<char>, end_date: Seq<char>) -> Result<Seq<Seq<char>>, Seq<char>> {
    match parsed_day(start_date, "%Y-%m-%d"@) {
        Err(e) => Err("Invalid start_date: "@ + e),
        Ok(start) => if !(FIRST_DAY <= start <= LAST_DAY) {
            Err("Invalid start date"@)
        } else {
            match parsed_day(end_date, "%Y-%m-%d"@) {
                Err(e) => Err("Invalid end_date: "@ + e),
                Ok(end) => if !(FIRST_DAY <= end <= LAST_DAY) {
                    Err("Invalid end date"@)
                } else {
                    match month_starts_between(
                        month_index(civil_year(start), civil_month(start)),
                        month_index(civil_year(end), civil_month(end)),
                    ) {
                        Some(months) => Ok(months),
                        None => Err("Date calculation error"@),
                    }
                },
            }
        },
    }
}

pub struct TrendsCalculator;

impl TrendsCalculator {
    /// The trends of a period, from what the store reports: of each day, where the spending
    /// is summed up by day or by week, and of each month, where it is summed up by month.
    /// By day and by month there is a point for each row; by week there is a point for each
    /// week in which a day lies, dated with the Monday of the week, the weeks in order. The
    /// total is that of the points, and the average is the total by the number of points.
    pub fn get_spending_trends(interval: TrendInterval, rows: Vec<SpendingRow>) -> (trends: SpendingTrends)
        ensures
            point_models(trends.data_points@) == (match interval {
                TrendInterval::Weekly => weekly(rows@).map_values(|w: WeekModel| week_point(w)),
                _ => rows@.map_values(|r: SpendingRow| point_of(r)),
            }),
            trends.total_spending == sum(point_amounts(point_models(trends.data_points@))),
            trends.average_per_interval == quotient(trends.total_spending as int, trends.data_points.len() as int),
    {
        let mut data_points: Vec<TrendPoint> = Vec::new();
        let mut total_spending: i128 = 0;
        match interval {
            TrendInterval::Weekly => {
                let (weeks, total) = group_by_week(&rows);
                let mut i: usize = 0;
                while i < weeks.len()
                    invariant
                        i <= weeks.len(),
                        data_points.len() == i,
                        forall|k: int| 0 <= k < weeks.len() ==> -5 <= (#[trigger] weeks[k]).monday <= LAST_DAY,
                        forall|k: int| 0 <= k < i ==> (#[trigger] data_points[k])@ == week_point(weeks[k]@),
                    decreases weeks.len() - i,
                {
                    data_points.push(
                        TrendPoint {
                            date: match iso_string_of_day(weeks[i].monday) {
                                Some(text) => text,
                                None => String::new(),
                            },
                            amount: weeks[i].amount,
                            transaction_count: weeks[i].transaction_count,
                        },
                    );
                    i += 1;
                }
                total_spending = total;
                proof {
                    assert(point_models(data_points@) =~= weekly(rows@).map_values(|w: WeekModel| week_point(w)));
                    assert(point_amounts(point_models(data_points@)) =~= week_amounts(weekly(rows@)));
                }
            },
            _ => {
                let mut i: usize = 0;
                proof {
                    assert(point_amounts(rows@.map_values(|r: SpendingRow| point_of(r))).take(0) =~= Seq::<
                        int,
                    >::empty());
                }
                while i < rows.len()
                    invariant
                        i <= rows.len(),
                        data_points.len() == i,
                        forall|k: int| 0 <= k < i ==> (#[trigger] data_points[k])@ == point_of(rows[k]),
                        total_spending == sum(
                            point_amounts(rows@.map_values(|r: SpendingRow| point_of(r))).take(i as int),
                        ),
                        -(i as int) * 0x8000_0000_0000_0000 <= total_spending <= i as int * 0x8000_0000_0000_0000,
                    decreases rows.len() - i,
                {
                    proof {
                        lemma_sum_take_step(
                            point_amounts(rows@.map_values(|r: SpendingRow| point_of(r))),
                            i as int,
                        );
                        let wide = i as int;
                        assert(wide * 0x8000_0000_0000_0000 <= 0xffff_ffff_ffff_ffff * 0x8000_0000_0000_0000)
                            by (nonlinear_arith)
                            requires
                                0 <= wide <= 0xffff_ffff_ffff_ffff,
                        ;
                        assert((wide + 1) * 0x8000_0000_0000_0000 == wide * 0x8000_0000_0000_0000
                            + 0x8000_0000_0000_0000) by (nonlinear_arith);
                    }
                    data_points.push(
                        TrendPoint {
                            date: rows[i].date.clone(),
                            amount: rows[i].amount as i128,
                            transaction_count: rows[i].transaction_count as i128,
                        },
                    );
                    total_spending = total_spending + rows[i].amount as i128;
                    i += 1;
                }
                proof {
                    let all = rows@.map_values(|r: SpendingRow| point_of(r));
                    assert(point_models(data_points@) =~= all);
                    assert(point_amounts(all).take(rows.len() as int) =~= point_amounts(all));
                    let wide = rows.len() as int;
                    assert(wide * 0x8000_0000_0000_0000 <= 0xffff_ffff_ffff_ffff * 0x8000_0000_0000_0000)
                        by (nonlinear_arith)
                        requires
                            0 <= wide <= 0xffff_ffff_ffff_ffff,
                    ;
                }
            },
        }
        let count = data_points.len();
        let average_per_interval: i128 = if count == 0 {
            0
        } else if total_spending >= 0 {
            total_spending / (count as i128)
        } else {
            -((-total_spending) / (count as i128))
        };
        SpendingTrends { data_points, total_spending, average_per_interval }
    }

    /// The first days of the months from that of `start_date` to that of `end_date`, each
    /// written out. Both dates are read in the form year-month-day.
    pub fn month_starts(start_date: &str, end_date: &str) -> (result: Result<Vec<String>, String>)
        ensures
            match result {
                Ok(months) => month_starts_of(start_date@, end_date@) == Ok::<Seq<Seq<char>>, Seq<char>>(
                    texts(months@),
                ),
                Err(e) => month_starts_of(start_date@, end_date@) == Err::<Seq<Seq<char>>, Seq<char>>(e@),
            },
    {
        let start = match parse_day(start_date, "%Y-%m-%d") {
            Ok(day) => match CalendarDay::from_days_from_ce(day) {
                Some(date) => date,
                None => {
                    return Err("Invalid start date".to_owned());
                },
            },
            Err(e) => {
                return Err(join("Invalid start_date: ", e.as_str()));
            },
        };
        let end = match parse_day(end_date, "%Y-%m-%d") {
            Ok(day) => match CalendarDay::from_days_from_ce(day) {
                Some(date) => date,
                None => {
                    return Err("Invalid end date".to_owned());
                },
            },
            Err(e) => {
                return Err(join("Invalid end_date: ", e.as_str()));
            },
        };
        let from: i64 = start.year() as i64 * 12 + (start.month() as i64 - 1);
        let to: i64 = end.year() as i64 * 12 + (end.month() as i64 - 1);
        let mut months: Vec<String> = Vec::new();
        let mut current: i64 = from;
        while current <= to
            invariant
                from <= current <= to + 1 || (from > to && current == from),
                -0x1_0000_0000_0000 <= from <= 0x1_0000_0000_0000,
                -0x1_0000_0000_0000 <= to <= 0x1_0000_0000_0000,
                month_starts_between(from as int, current - 1) == Some(texts(months@)),
                month_starts_of(start_date@, end_date@) == (match month_starts_between(from as int, to as int) {
                    Some(months) => Ok::<Seq<Seq<char>>, Seq<char>>(months),
                    None => Err::<Seq<Seq<char>>, Seq<char>>("Date calculation error"@),
                }),
            decreases to - current + 1,
        {
            let year = if current >= 0 {
                current / 12
            } else {
                -((-current + 11) / 12)
            };
            let month = current - year * 12 + 1;
            let ghost before = texts(months@);
            match day_in_month(year, month, 1) {
                Some(first) => {
                    months.push(first.month_start_string());
                },
                None => {
                    proof {
                        lemma_month_starts_fail(from as int, current as int, to as int);
                    }
                    return Err("Date calculation error".to_owned());
                },
            }
            proof {
                assert(texts(months@) =~= before.push(month_start_of(current as int)->0));
            }
            current += 1;
        }
        Ok(months)
    }
}

} // verus!
