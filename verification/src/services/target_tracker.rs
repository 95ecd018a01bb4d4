use vstd::prelude::*;
use crate::db::statement::{SqlValue, SqlValueModel, Statement};
use crate::services::spending_aggregator::{share, share_of};

verus! {

/// How the spending of a category stands to its target. Amounts are in millionths of a
/// currency unit, the percentage in millionths of a percentage point.
#[derive(Debug, Clone)]
pub struct TargetProgress {
    pub category_id: i64,
    pub category_name: String,
    pub target_amount: i64,
    pub actual_amount: i64,
    pub remaining: i128,
    pub percentage_used: i128,
    pub status: String,  // "under", "on_track", "over"
    pub variance: i128,
}

#[derive(Debug, Clone)]
pub struct TargetsProgress {
    pub period: DatePeriod,
    pub targets: Vec<TargetProgress>,
    pub overall_status: String,
}

#[derive(Debug, Clone)]
pub struct DatePeriod {
    pub start_date: String,
    pub end_date: String,
}

/// What the store reports of one target: the category, the amount aimed at, and what was
/// spent in the category in the period.
#[derive(Debug, Clone)]
pub struct TargetRow {
    pub category_id: i64,
    pub category_name: String,
    pub target_amount: i64,
    pub actual_amount: i64,
}

/// How spending stands to a target.
#[derive(Debug, Clone, Copy, PartialEq, Eq, Structural)]
pub enum TargetStatus {
    /// Less than four fifths of the target is spent.
    Under,
    /// At least four fifths of the target is spent, and no more than the target.
    OnTrack,
    /// More than the target is spent.
    Over,
}

impl TargetStatus {
    /// The name of the status.
    pub open spec fn text(self) -> Seq<char> {
        match self {
            TargetStatus::Under => "under"@,
            TargetStatus::OnTrack => "on_track"@,
            TargetStatus::Over => "over"@,
        }
    }

    /// The name of the status.
    pub fn name(&self) -> (name: String)
        ensures
            name@ == self.text(),
    {
        match self {
            TargetStatus::Under => "under".to_owned(),
            TargetStatus::OnTrack => "on_track".to_owned(),
            TargetStatus::Over => "over".to_owned(),
        }
    }
}

/// The status of what is spent against a target. A target that is not positive counts as
/// one of which nothing is used.
pub open spec fn status_of(target_amount: int, actual_amount: int) -> TargetStatus {
    if target_amount <= 0 || actual_amount * 100 < target_amount * 80 {
        TargetStatus::Under
    } else if actual_amount <= target_amount {
        TargetStatus::OnTrack
    } else {
        TargetStatus::Over
    }
}

/// The status of what is spent against a target.
pub fn assess(target_amount: i64, actual_amount: i64) -> (status: TargetStatus)
    ensures
        status == status_of(target_amount as int, actual_amount as int),
{
    if target_amount <= 0 || (actual_amount as i128) * 100 < (target_amount as i128) * 80 {
        TargetStatus::Under
    } else if actual_amount <= target_amount {
        TargetStatus::OnTrack
    } else {
        TargetStatus::Over
    }
}

/// How many of the rows have the status given.
pub open spec fn count_with(rows: Seq<TargetRow>, status: TargetStatus) -> nat
    decreases rows.len(),
{
    if rows.len() == 0 {
        0
    } else {
        count_with(rows.drop_last(), status) + if status_of(
            rows.last().target_amount as int,
            rows.last().actual_amount as int,
        ) == status {
            1nat
        } else {
            0nat
        }
    }
}

/// The status of all targets together: over if any is over; else that of the greater
/// number, on track where the numbers are equal; under where there is no target.
pub open spec fn overall_of(under: nat, on_track: nat, over: nat) -> TargetStatus {
    if over > 0 {
        TargetStatus::Over
    } else if under > on_track {
        TargetStatus::Under
    } else if on_track > 0 {
        TargetStatus::OnTrack
    } else {
        TargetStatus::Under
    }
}

/// The status of all targets together.
pub fn overall(under: usize, on_track: usize, over: usize) -> (status: TargetStatus)
    ensures
        status == overall_of(under as nat, on_track as nat, over as nat),
{
    if over > 0 {
        TargetStatus::Over
    } else if on_track > 0 || under > 0 {
        if under > on_track {
            TargetStatus::Under
        } else {
            TargetStatus::OnTrack
        }
    } else {
        TargetStatus::Under
    }
}

proof fn lemma_count_bound(rows: Seq<TargetRow>, status: TargetStatus)
    ensures
        count_with(rows, status) <= rows.len(),
    decreases rows.len(),
{
    if rows.len() > 0 {
        lemma_count_bound(rows.drop_last(), status);
    }
}

pub struct TargetTracker;

impl TargetTracker {
    /// The statement that reports the targets in force in a period.
    pub fn targets_statement(start_date: &str, end_date: &str) -> (statement: Statement)
        ensures
            statement.sql@
                == "SELECT id, category_id, (SELECT name FROM categories WHERE id = category_id) as category_name, amount FROM spending_targets WHERE (start_date <= ? AND (end_date IS NULL OR end_date >= ?))"@,
            statement.bound() == seq![SqlValueModel::Text(end_date@), SqlValueModel::Text(start_date@)],
    {
        let mut parameters: Vec<SqlValue> = Vec::new();
        parameters.push(SqlValue::Text(end_date.to_owned()));
        parameters.push(SqlValue::Text(start_date.to_owned()));
        let statement = Statement {
            sql: "SELECT id, category_id, (SELECT name FROM categories WHERE id = category_id) as category_name, amount FROM spending_targets WHERE (start_date <= ? AND (end_date IS NULL OR end_date >= ?))".to_owned(),
            parameters,
        };
        proof {
            assert(statement.bound() =~= seq![SqlValueModel::Text(end_date@), SqlValueModel::Text(start_date@)]);
        }
        statement
    }

    /// The statement that reports what was spent in a category in a period.
    pub fn actual_amount_statement(category_id: i64, start_date: &str, end_date: &str) -> (statement: Statement)
        ensures
            statement.sql@
                == "SELECT CAST(COALESCE(SUM(ABS(amount)), 0) AS REAL) FROM transactions WHERE category_id = ? AND date >= ? AND date <= ? AND amount < 0"@,
            statement.bound() == seq![
                SqlValueModel::Integer(category_id as int),
                SqlValueModel::Text(start_date@),
                SqlValueModel::Text(end_date@),
            ],
    {
        let mut parameters: Vec<SqlValue> = Vec::new();
        parameters.push(SqlValue::Integer(category_id));
        parameters.push(SqlValue::Text(start_date.to_owned()));
        parameters.push(SqlValue::Text(end_date.to_owned()));
        let statement = Statement {
            sql: "SELECT CAST(COALESCE(SUM(ABS(amount)), 0) AS REAL) FROM transactions WHERE category_id = ? AND date >= ? AND date <= ? AND amount < 0".to_owned(),
            parameters,
        };
        proof {
            assert(statement.bound() =~= seq![
                SqlValueModel::Integer(category_id as int),
                SqlValueModel::Text(start_date@),
                SqlValueModel::Text(end_date@),
            ]);
        }
        statement
    }

    /// The progress of one target: what remains of it, the share of it that is used, by how
    /// much the spending differs from it, and its status.
    pub fn progress_of(row: &TargetRow) -> (progress: TargetProgress)
        ensures
            progress.category_id == row.category_id,
            progress.category_name@ == row.category_name@,
            progress.target_amount == row.target_amount,
            progress.actual_amount == row.actual_amount,
            progress.remaining == row.target_amount - row.actual_amount,
            progress.variance == row.actual_amount - row.target_amount,
            progress.percentage_used == share(row.actual_amount as int, row.target_amount as int),
            progress.status@ == status_of(row.target_amount as int, row.actual_amount as int).text(),
    {
        let remaining = row.target_amount as i128 - row.actual_amount as i128;
        let percentage_used = share_of(
            row.actual_amount,
            row.target_amount as i128,
        );
        let variance = row.actual_amount as i128 - row.target_amount as i128;
        TargetProgress {
            category_id: row.category_id,
            category_name: row.category_name.clone(),
            target_amount: row.target_amount,
            actual_amount: row.actual_amount,
            remaining,
            percentage_used,
            status: assess(row.target_amount, row.actual_amount).name(),
            variance,
        }
    }

    /// The progress of the targets of a period, from what the store reports of each, and
    /// the status of all together.
    pub fn get_targets_progress(rows: Vec<TargetRow>, start_date: &str, end_date: &str) -> (progress: TargetsProgress)
        ensures
            progress.period.start_date@ == start_date@,
            progress.period.end_date@ == end_date@,
            progress.targets.len() == rows.len(),
            forall|k: int|
                0 <= k < rows.len() ==> {
                    &&& (#[trigger] progress.targets[k]).category_id == rows[k].category_id
                    &&& progress.targets[k].category_name@ == rows[k].category_name@
                    &&& progress.targets[k].target_amount == rows[k].target_amount
                    &&& progress.targets[k].actual_amount == rows[k].actual_amount
                    &&& progress.targets[k].remaining == rows[k].target_amount - rows[k].actual_amount
                    &&& progress.targets[k].variance == rows[k].actual_amount - rows[k].target_amount
                    &&& progress.targets[k].percentage_used == share(
                        rows[k].actual_amount as int,
                        rows[k].target_amount as int,
                    )
                    &&& progress.targets[k].status@ == status_of(
                        rows[k].target_amount as int,
                        rows[k].actual_amount as int,
                    ).text()
                },
            progress.overall_status@ == overall_of(
                count_with(rows@, TargetStatus::Under),
                count_with(rows@, TargetStatus::OnTrack),
                count_with(rows@, TargetStatus::Over),
            ).text(),
    {
        let mut target_progress_list: Vec<TargetProgress> = Vec::new();
        let mut under_count: usize = 0;
        let mut on_track_count: usize = 0;
        let mut over_count: usize = 0;
        let mut i: usize = 0;
        proof {
            assert(rows@.take(0) =~= Seq::<TargetRow>::empty());
        }
        while i < rows.len()
            invariant
                i <= rows.len(),
                target_progress_list.len() == i,
                under_count == count_with(rows@.take(i as int), TargetStatus::Under),
                on_track_count == count_with(rows@.take(i as int), TargetStatus::OnTrack),
                over_count == count_with(rows@.take(i as int), TargetStatus::Over),
                forall|k: int|
                    0 <= k < i ==> {
                        &&& (#[trigger] target_progress_list[k]).category_id == rows[k].category_id
                        &&& target_progress_list[k].category_name@ == rows[k].category_name@
                        &&& target_progress_list[k].target_amount == rows[k].target_amount
                        &&& target_progress_list[k].actual_amount == rows[k].actual_amount
                        &&& target_progress_list[k].remaining == rows[k].target_amount - rows[k].actual_amount
                        &&& target_progress_list[k].variance == rows[k].actual_amount - rows[k].target_amount
                        &&& target_progress_list[k].percentage_used == share(
                            rows[k].actual_amount as int,
                            rows[k].target_amount as int,
                        )
                        &&& target_progress_list[k].status@ == status_of(
                            rows[k].target_amount as int,
                            rows[k].actual_amount as int,
                        ).text()
                    },
            decreases rows.len() - i,
        {
            proof {
                assert(rows@.take(i as int + 1).drop_last() =~= rows@.take(i as int));
                assert(rows@.take(i as int + 1).last() == rows@[i as int]);
                lemma_count_bound(rows@.take(i as int), TargetStatus::Under);
                lemma_count_bound(rows@.take(i as int), TargetStatus::OnTrack);
                lemma_count_bound(rows@.take(i as int), TargetStatus::Over);
            }
            match assess(rows[i].target_amount, rows[i].actual_amount) {
                TargetStatus::Under => {
                    under_count += 1;
                },
                TargetStatus::OnTrack => {
                    on_track_count += 1;
                },
                TargetStatus::Over => {
                    over_count += 1;
                },
            }
            target_progress_list.push(Self::progress_of(&rows[i]));
            i += 1;
        }
        proof {
            assert(rows@.take(rows.len() as int) =~= rows@);
        }
        TargetsProgress {
            period: DatePeriod { start_date: start_date.to_owned(), end_date: end_date.to_owned() },
            targets: target_progress_list,
            overall_status: overall(under_count, on_track_count, over_count).name(),
        }
    }

    /// The statement that stores a new target.
    pub fn create_target_statement(
        category_id: i64,
        amount: i64,
        period: &str,
        start_date: &str,
        end_date: Option<&str>,
    ) -> (statement: Statement)
        ensures
            statement.sql@
                == "INSERT INTO spending_targets (category_id, amount, period, start_date, end_date) VALUES (?, ?, ?, ?, ?)"@,
            statement.bound() == seq![
                SqlValueModel::Integer(category_id as int),
                SqlValueModel::Decimal(amount as int),
                SqlValueModel::Text(period@),
                SqlValueModel::Text(start_date@),
                match end_date {
                    Some(date) => SqlValueModel::Text(date@),
                    None => SqlValueModel::Null,
                },
            ],
    {
        let mut parameters: Vec<SqlValue> = Vec::new();
        parameters.push(SqlValue::Integer(category_id));
        parameters.push(SqlValue::Decimal(amount));
        parameters.push(SqlValue::Text(period.to_owned()));
        parameters.push(SqlValue::Text(start_date.to_owned()));
        parameters.push(
            match end_date {
                Some(date) => SqlValue::Text(date.to_owned()),
                None => SqlValue::Null,
            },
        );
        let statement = Statement {
            sql: "INSERT INTO spending_targets (category_id, amount, period, start_date, end_date) VALUES (?, ?, ?, ?, ?)".to_owned(),
            parameters,
        };
        proof {
            assert(statement.bound() =~= seq![
                SqlValueModel::Integer(category_id as int),
                SqlValueModel::Decimal(amount as int),
                SqlValueModel::Text(period@),
                SqlValueModel::Text(start_date@),
                match end_date {
                    Some(date) => SqlValueModel::Text(date@),
                    None => SqlValueModel::Null,
                },
            ]);
        }
        statement
    }

    /// The statements that update a target: one for the amount, if it is given, then one
    /// for the end date, if it is given.
    pub fn update_target_statements(target_id: i64, amount: Option<i64>, end_date: Option<&str>) -> (statements: Vec<
        Statement,
    >)
        ensures
            statements.len() == (if amount is Some {
                1int
            } else {
                0int
            }) + (if end_date is Some {
                1int
            } else {
                0int
            }),
            amount is Some ==> statements[0].sql@ == "UPDATE spending_targets SET amount = ? WHERE id = ?"@
                && statements[0].bound() == seq![
                SqlValueModel::Decimal(amount->0 as int),
                SqlValueModel::Integer(target_id as int),
            ],
            end_date is Some ==> statements[statements.len() - 1].sql@
                == "UPDATE spending_targets SET end_date = ? WHERE id = ?"@ && statements[statements.len()
                - 1].bound() == seq![SqlValueModel::Text(end_date->0@), SqlValueModel::Integer(target_id as int)],
    {
        let mut statements: Vec<Statement> = Vec::new();
        if let Some(amt) = amount {
            let mut parameters: Vec<SqlValue> = Vec::new();
            parameters.push(SqlValue::Decimal(amt));
            parameters.push(SqlValue::Integer(target_id));
            let statement = Statement {
                sql: "UPDATE spending_targets SET amount = ? WHERE id = ?".to_owned(),
                parameters,
            };
            proof {
                assert(statement.bound() =~= seq![
                    SqlValueModel::Decimal(amt as int),
                    SqlValueModel::Integer(target_id as int),
                ]);
            }
            statements.push(statement);
        }
        if let Some(date) = end_date {
            let mut parameters: Vec<SqlValue> = Vec::new();
            parameters.push(SqlValue::Text(date.to_owned()));
            parameters.push(SqlValue::Integer(target_id));
            let statement = Statement {
                sql: "UPDATE spending_targets SET end_date = ? WHERE id = ?".to_owned(),
                parameters,
            };
            proof {
                assert(statement.bound() =~= seq![
                    SqlValueModel::Text(date@),
                    SqlValueModel::Integer(target_id as int),
                ]);
            }
            statements.push(statement);
        }
        statements
    }
}

} // verus!
