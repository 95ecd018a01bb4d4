use vstd::prelude::*;
use vstd::string::StringExecFns;
use crate::calendar::{CalendarDay, civil_month, civil_year, iso_date_text, month_start_text};
use crate::services::spending_aggregator::{CategorySpending, SpendingByCategory};
use crate::services::target_tracker::TargetProgress;
use crate::text::{
    decimal, decimal_text, format_money, format_padded, format_percent, join, money_text,
    padded_text, percent_text,
};

verus! {

#[derive(Debug)]
pub struct UpdateTargetResponse {
    pub success: bool,
}

/// The summary shown on the dashboard. Amounts are in millionths of a currency unit.
#[derive(Debug)]
pub struct DashboardSummary {
    pub period: DatePeriod,
    pub total_spending: i64,
    pub total_income: i64,
    pub net: i128,
    pub top_categories: Vec<CategorySpending>,
    pub debt_summary: DebtSummary,
    pub target_summary: TargetSummary,
}

#[derive(Debug)]
pub struct DatePeriod {
    pub start_date: String,
    pub end_date: String,
}

#[derive(Debug)]
pub struct DebtSummary {
    pub total_debt: i64,
    pub total_monthly_payment: i64,
    pub next_payoff_date: Option<String>,
}

#[derive(Debug)]
pub struct TargetSummary {
    pub on_track_count: usize,
    pub over_count: usize,
    pub total_variance: i128,
}

#[derive(Debug)]
pub struct ExportReportResponse {
    pub success: bool,
    pub file_path: String,
    pub file_size: u64,
}

// ----- periods -----

/// The first month of the quarter in which a month lies.
pub open spec fn quarter_start(month: int) -> int {
    ((month - 1) / 3) * 3 + 1
}

/// The first day of a year, written out; the year is written as it is, without zeros in
/// front.
pub open spec fn year_start_text(year: int) -> Seq<char> {
    decimal_text(year) + "-01-01"@
}

/// The first day of the quarter of a day, written out.
pub open spec fn quarter_start_text(day: int) -> Seq<char> {
    decimal_text(civil_year(day)) + "-"@ + padded_text(quarter_start(civil_month(day)), 2) + "-01"@
}

/// The period over which the progress of targets is looked at, from its first to its last
/// day: the two dates given, if both are given; else the month, the quarter or the year of
/// `today` up to `today`, as the name of the period says, the month where no name is
/// given. Any other name is refused.
pub open spec fn targets_period(
    period: Option<Seq<char>>,
    custom_start: Option<Seq<char>>,
    custom_end: Option<Seq<char>>,
    today: int,
) -> Result<(Seq<char>, Seq<char>), Seq<char>> {
    if custom_start is Some && custom_end is Some {
        Ok((custom_start->0, custom_end->0))
    } else {
        let name = match period {
            Some(p) => p,
            None => "monthly"@,
        };
        if name == "monthly"@ {
            Ok((month_start_text(today), iso_date_text(today)))
        } else if name == "quarterly"@ {
            Ok((quarter_start_text(today), iso_date_text(today)))
        } else if name == "yearly"@ {
            Ok((year_start_text(civil_year(today)), iso_date_text(today)))
        } else {
            Err("Invalid period: "@ + name)
        }
    }
}

/// The first day of the year of a day, written out.
fn year_start(today: CalendarDay) -> (text: String)
    ensures
        text@ == year_start_text(civil_year(today@)),
{
    join(decimal(today.year() as i128).as_str(), "-01-01")
}

/// The period over which the progress of targets is looked at.
pub fn get_spending_targets_progress_period(
    period: Option<String>,
    custom_start: Option<String>,
    custom_end: Option<String>,
    today: CalendarDay,
) -> (result: Result<DatePeriod, String>)
    ensures
        match result {
            Ok(range) => targets_period(
                match period {
                    Some(p) => Some(p@),
                    None => None,
                },
                match custom_start {
                    Some(s) => Some(s@),
                    None => None,
                },
                match custom_end {
                    Some(e) => Some(e@),
                    None => None,
                },
                today@,
            ) == Ok::<(Seq<char>, Seq<char>), Seq<char>>((range.start_date@, range.end_date@)),
            Err(message) => targets_period(
                match period {
                    Some(p) => Some(p@),
                    None => None,
                },
                match custom_start {
                    Some(s) => Some(s@),
                    None => None,
                },
                match custom_end {
                    Some(e) => Some(e@),
                    None => None,
                },
                today@,
            ) == Err::<(Seq<char>, Seq<char>), Seq<char>>(message@),
        },
{
    // Calculate date range based on period
    match (custom_start, custom_end) {
        (Some(start), Some(end)) => Ok(DatePeriod { start_date: start, end_date: end }),
        _ => {
            let period_str = match period {
                Some(p) => p,
                None => "monthly".to_owned(),
            };
            if period_str == "monthly".to_owned() {
                Ok(DatePeriod { start_date: today.month_start_string(), end_date: today.to_iso_string() })
            } else if period_str == "quarterly".to_owned() {
                let quarter_start_month = ((today.month() - 1) / 3) * 3 + 1;
                let mut start = decimal(today.year() as i128);
                start.append("-");
                start.append(format_padded(quarter_start_month as i64, 2).as_str());
                start.append("-01");
                Ok(DatePeriod { start_date: start, end_date: today.to_iso_string() })
            } else if period_str == "yearly".to_owned() {
                Ok(DatePeriod { start_date: year_start(today), end_date: today.to_iso_string() })
            } else {
                Err(join("Invalid period: ", period_str.as_str()))
            }
        },
    }
}

/// The period that the dashboard sums up, from its first to its last day: the month of
/// `today`, the thirty days before `today`, or the year of `today`, up to `today`. Any
/// other name is refused.
pub open spec fn dashboard_period(period: Seq<char>, today: int) -> Result<(Seq<char>, Seq<char>), Seq<char>> {
    if period == "current_month"@ {
        Ok((month_start_text(today), iso_date_text(today)))
    } else if period == "last_30_days"@ {
        Ok((iso_date_text(today - 30), iso_date_text(today)))
    } else if period == "current_year"@ {
        Ok((year_start_text(civil_year(today)), iso_date_text(today)))
    } else {
        Err("Invalid period: "@ + period)
    }
}

/// The period that the dashboard sums up.
pub fn get_dashboard_period(period: &str, today: CalendarDay) -> (result: Result<DatePeriod, String>)
    ensures
        match result {
            Ok(range) => dashboard_period(period@, today@) == Ok::<(Seq<char>, Seq<char>), Seq<char>>(
                (range.start_date@, range.end_date@),
            ),
            Err(message) => dashboard_period(period@, today@) == Err::<(Seq<char>, Seq<char>), Seq<char>>(message@),
        },
{
    let given = period.to_owned();
    if given == "current_month".to_owned() {
        Ok(DatePeriod { start_date: today.month_start_string(), end_date: today.to_iso_string() })
    } else if given == "last_30_days".to_owned() {
        Ok(DatePeriod { start_date: today.iso_string_before(30), end_date: today.to_iso_string() })
    } else if given == "current_year".to_owned() {
        Ok(DatePeriod { start_date: year_start(today), end_date: today.to_iso_string() })
    } else {
        Err(join("Invalid period: ", period))
    }
}

// ----- the dashboard -----

/// How many of the targets have the status named.
pub open spec fn count_status(targets: Seq<TargetProgress>, status: Seq<char>) -> nat
    decreases targets.len(),
{
    if targets.len() == 0 {
        0
    } else {
        count_status(targets.drop_last(), status) + if targets.last().status@ == status {
            1nat
        } else {
            0nat
        }
    }
}

/// By how much what is spent differs from the targets, all targets together.
pub open spec fn variance_of(targets: Seq<TargetProgress>) -> int
    decreases targets.len(),
{
    if targets.len() == 0 {
        0
    } else {
        variance_of(targets.drop_last()) + (targets.last().actual_amount - targets.last().target_amount)
    }
}

proof fn lemma_count_status_bound(targets: Seq<TargetProgress>, status: Seq<char>)
    ensures
        count_status(targets, status) <= targets.len(),
    decreases targets.len(),
{
    if targets.len() > 0 {
        lemma_count_status_bound(targets.drop_last(), status);
    }
}

/// The most targets that can be summed up without the total leaving its range.
pub const MAX_TARGETS: usize = 0x7fff_ffff;

/// Sums the targets up: how many are on track, how many are over, and by how much what
/// is spent differs from what was aimed at.
pub fn summarize_targets(targets: &Vec<TargetProgress>) -> (summary: TargetSummary)
    requires
        targets.len() <= MAX_TARGETS,
    ensures
        summary.on_track_count == count_status(targets@, "on_track"@),
        summary.over_count == count_status(targets@, "over"@),
        summary.total_variance == variance_of(targets@),
{
    let mut on_track_count: usize = 0;
    let mut over_count: usize = 0;
    let mut total_variance: i128 = 0;
    let on_track = "on_track".to_owned();
    let over = "over".to_owned();
    let mut i: usize = 0;
    proof {
        assert(targets@.take(0) =~= Seq::<TargetProgress>::empty());
    }
    while i < targets.len()
        invariant
            i <= targets.len(),
            on_track@ == "on_track"@,
            over@ == "over"@,
            on_track_count == count_status(targets@.take(i as int), "on_track"@),
            over_count == count_status(targets@.take(i as int), "over"@),
            total_variance == variance_of(targets@.take(i as int)),
            targets.len() <= MAX_TARGETS,
            -(i as int) * 0x1_0000_0000_0000_0000 <= total_variance <= i as int * 0x1_0000_0000_0000_0000,
        decreases targets.len() - i,
    {
        proof {
            assert(targets@.take(i as int + 1).drop_last() =~= targets@.take(i as int));
            assert(targets@.take(i as int + 1).last() == targets@[i as int]);
            lemma_count_status_bound(targets@.take(i as int), "on_track"@);
            lemma_count_status_bound(targets@.take(i as int), "over"@);
            let wide = i as int;
            assert(wide * 0x1_0000_0000_0000_0000 <= 0x7fff_ffff * 0x1_0000_0000_0000_0000) by (nonlinear_arith)
                requires
                    0 <= wide <= 0x7fff_ffff,
            ;
            assert((wide + 1) * 0x1_0000_0000_0000_0000 == wide * 0x1_0000_0000_0000_0000
                + 0x1_0000_0000_0000_0000) by (nonlinear_arith);
        }
        if targets[i].status == on_track {
            on_track_count += 1;
        }
        if targets[i].status == over {
            over_count += 1;
        }
        total_variance = total_variance + (targets[i].actual_amount as i128 - targets[i].target_amount as i128);
        i += 1;
    }
    proof {
        assert(targets@.take(targets.len() as int) =~= targets@);
    }
    TargetSummary { on_track_count, over_count, total_variance }
}

/// Puts the summary of the dashboard together from what the store and the services
/// report of the period. The net is what came in less what was spent.
pub fn get_dashboard_summary(
    period: DatePeriod,
    total_spending: i64,
    total_income: i64,
    top_categories: Vec<CategorySpending>,
    total_debt: i64,
    total_monthly_payment: i64,
    targets: &Vec<TargetProgress>,
) -> (summary: DashboardSummary)
    requires
        targets.len() <= MAX_TARGETS,
    ensures
        summary.period == period,
        summary.total_spending == total_spending,
        summary.total_income == total_income,
        summary.net == total_income - total_spending,
        summary.top_categories == top_categories,
        summary.debt_summary.total_debt == total_debt,
        summary.debt_summary.total_monthly_payment == total_monthly_payment,
        summary.debt_summary.next_payoff_date is None,
        summary.target_summary.on_track_count == count_status(targets@, "on_track"@),
        summary.target_summary.over_count == count_status(targets@, "over"@),
        summary.target_summary.total_variance == variance_of(targets@),
{
    let net = total_income as i128 - total_spending as i128;
    DashboardSummary {
        period,
        total_spending,
        total_income,
        net,
        top_categories,
        debt_summary: DebtSummary { total_debt, total_monthly_payment, next_payoff_date: None },
        target_summary: summarize_targets(targets),
    }
}

// ----- the report -----

/// The lines of the categories in the report that is written as text.
pub open spec fn report_lines(categories: Seq<CategorySpending>) -> Seq<char>
    decreases categories.len(),
{
    if categories.len() == 0 {
        Seq::empty()
    } else {
        report_lines(categories.drop_last()) + ("  - "@ + categories.last().category_name@ + ": $"@ + money_text(
            categories.last().amount as int,
        ) + " ("@ + percent_text(categories.last().percentage as int) + "%)\n"@)
    }
}

/// The lines of the categories in the report that is written as a table.
pub open spec fn table_lines(categories: Seq<CategorySpending>) -> Seq<char>
    decreases categories.len(),
{
    if categories.len() == 0 {
        Seq::empty()
    } else {
        table_lines(categories.drop_last()) + (categories.last().category_name@ + ","@ + money_text(
            categories.last().amount as int,
        ) + ","@ + percent_text(categories.last().percentage as int) + "\n"@)
    }
}

/// The report of the spending of a period in the form named: as text under "pdf", as a table of
/// comma-separated values under "xlsx". Any other form is refused.
pub open spec fn report_text(
    format: Seq<char>,
    start_date: Seq<char>,
    end_date: Seq<char>,
    spending: SpendingByCategory,
) -> Result<Seq<char>, Seq<char>> {
    if format == "pdf"@ {
        Ok(
            "Budget Balancer Analytics Report\nPeriod: "@ + start_date + " to "@ + end_date
                + "\n\nTotal Spending: $"@ + money_text(spending.total_spending as int) + "\n\nCategories:\n"@
                + report_lines(spending.categories@),
        )
    } else if format == "xlsx"@ {
        Ok("Category,Amount,Percentage\n"@ + table_lines(spending.categories@))
    } else {
        Err("Unsupported format: "@ + format)
    }
}

/// Writes the report of the spending of a period in the form named.
pub fn export_analytics_report(format: &str, start_date: &str, end_date: &str, spending: &SpendingByCategory) -> (result:
    Result<String, String>)
    ensures
        match result {
            Ok(content) => report_text(format@, start_date@, end_date@, *spending) == Ok::<Seq<char>, Seq<char>>(
                content@,
            ),
            Err(message) => report_text(format@, start_date@, end_date@, *spending) == Err::<Seq<char>, Seq<char>>(
                message@,
            ),
        },
{
    let given = format.to_owned();
    if given == "pdf".to_owned() {
        let mut content = "Budget Balancer Analytics Report\nPeriod: ".to_owned();
        content.append(start_date);
        content.append(" to ");
        content.append(end_date);
        content.append("\n\nTotal Spending: $");
        content.append(format_money(spending.total_spending).as_str());
        content.append("\n\nCategories:\n");
        let ghost head = content@;
        let mut i: usize = 0;
        proof {
            assert(spending.categories@.take(0) =~= Seq::<CategorySpending>::empty());
            assert(content@ =~= head + report_lines(spending.categories@.take(0)));
        }
        while i < spending.categories.len()
            invariant
                i <= spending.categories.len(),
                content@ == head + report_lines(spending.categories@.take(i as int)),
            decreases spending.categories.len() - i,
        {
            let category = &spending.categories[i];
            proof {
                assert(spending.categories@.take(i as int + 1).drop_last() =~= spending.categories@.take(i as int));
                assert(spending.categories@.take(i as int + 1).last() == spending.categories@[i as int]);
            }
            let mut line = "  - ".to_owned();
            line.append(category.category_name.as_str());
            line.append(": $");
            line.append(format_money(category.amount as i128).as_str());
            line.append(" (");
            line.append(format_percent(category.percentage).as_str());
            line.append("%)\n");
            content.append(line.as_str());
            proof {
                assert(content@ =~= head + (report_lines(spending.categories@.take(i as int)) + line@));
            }
            i += 1;
        }
        proof {
            assert(spending.categories@.take(spending.categories.len() as int) =~= spending.categories@);
        }
        Ok(content)
    } else if given == "xlsx".to_owned() {
        let mut content = "Category,Amount,Percentage\n".to_owned();
        let ghost head = content@;
        let mut i: usize = 0;
        proof {
            assert(spending.categories@.take(0) =~= Seq::<CategorySpending>::empty());
            assert(content@ =~= head + table_lines(spending.categories@.take(0)));
        }
        while i < spending.categories.len()
            invariant
                i <= spending.categories.len(),
                head == "Category,Amount,Percentage\n"@,
                content@ == head + table_lines(spending.categories@.take(i as int)),
            decreases spending.categories.len() - i,
        {
            let category = &spending.categories[i];
            proof {
                assert(spending.categories@.take(i as int + 1).drop_last() =~= spending.categories@.take(i as int));
                assert(spending.categories@.take(i as int + 1).last() == spending.categories@[i as int]);
            }
            let mut line = category.category_name.clone();
            line.append(",");
            line.append(format_money(category.amount as i128).as_str());
            line.append(",");
            line.append(format_percent(category.percentage).as_str());
            line.append("\n");
            content.append(line.as_str());
            proof {
                assert(content@ =~= head + (table_lines(spending.categories@.take(i as int)) + line@));
            }
            i += 1;
        }
        proof {
            assert(spending.categories@.take(spending.categories.len() as int) =~= spending.categories@);
        }
        Ok(content)
    } else {
        Err(join("Unsupported format: ", format))
    }
}

/// The answer to an export that went through.
pub fn export_report_response(output_path: &str, file_size: u64) -> (response: ExportReportResponse)
    ensures
        response.success,
        response.file_path@ == output_path@,
        response.file_size == file_size,
{
    ExportReportResponse { success: true, file_path: output_path.to_owned(), file_size }
}

} // verus!
