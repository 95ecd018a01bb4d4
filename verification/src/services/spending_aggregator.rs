use vstd::prelude::*;
use crate::db::statement::{SqlValue, SqlValueModel, Statement};
use crate::services::summation::{lemma_sum_take_step, sum};

verus! {

/// What was spent in one category. The amount is in millionths of a currency unit, the
/// percentage in millionths of a percentage point.
#[derive(Debug, Clone)]
pub struct CategorySpending {
    pub category_id: i64,
    pub category_name: String,
    pub category_icon: Option<String>,
    pub amount: i64,
    pub percentage: i128,
    pub transaction_count: i64,
}

#[derive(Debug, Clone)]
pub struct SpendingByCategory {
    pub period: DatePeriod,
    pub categories: Vec<CategorySpending>,
    pub total_spending: i128,
}

#[derive(Debug, Clone)]
pub struct DatePeriod {
    pub start_date: String,
    pub end_date: String,
}

/// What the store reports of one category: what was spent in it, and in how many
/// transactions.
#[derive(Debug, Clone)]
pub struct CategoryRow {
    pub category_id: i64,
    pub category_name: String,
    pub category_icon: Option<String>,
    pub amount: i64,
    pub transaction_count: i64,
}

/// The amounts of the rows.
pub open spec fn row_amounts(rows: Seq<CategoryRow>) -> Seq<int> {
    rows.map_values(|r: CategoryRow| r.amount as int)
}

/// The share of an amount in a total, in millionths of a percentage point, rounded toward
/// zero; nothing if the total is not positive.
pub open spec fn share(amount: int, total: int) -> int {
    if total <= 0 {
        0
    } else if amount >= 0 {
        (amount * 100_000_000) / total
    } else {
        -((-amount * 100_000_000) / total)
    }
}

/// The share of an amount in a total.
pub fn share_of(amount: i64, total: i128) -> (percentage: i128)
    ensures
        percentage == share(amount as int, total as int),
{
    if total <= 0 {
        0
    } else if amount >= 0 {
        (amount as i128 * 100_000_000) / total
    } else {
        let size: i128 = -(amount as i128);
        -((size * 100_000_000) / total)
    }
}

pub struct SpendingAggregator;

impl SpendingAggregator {
    /// The statement that reports what was spent in each category between two dates, in
    /// all accounts or in one, the category with the most spent first.
    pub fn spending_statement(start_date: &str, end_date: &str, account_id: Option<i64>) -> (statement: Statement)
        ensures
            statement.sql@ == (if account_id is Some {
                "SELECT c.id, c.name, c.icon, CAST(COALESCE(SUM(ABS(t.amount)), 0) AS REAL) as total_amount, COUNT(t.id) as transaction_count FROM categories c LEFT JOIN transactions t ON t.category_id = c.id AND t.date >= ? AND t.date <= ? AND t.amount < 0 AND t.account_id = ? GROUP BY c.id, c.name, c.icon HAVING total_amount > 0 ORDER BY total_amount DESC"@
            } else {
                "SELECT c.id, c.name, c.icon, CAST(COALESCE(SUM(ABS(t.amount)), 0) AS REAL) as total_amount, COUNT(t.id) as transaction_count FROM categories c LEFT JOIN transactions t ON t.category_id = c.id AND t.date >= ? AND t.date <= ? AND t.amount < 0 GROUP BY c.id, c.name, c.icon HAVING total_amount > 0 ORDER BY total_amount DESC"@
            }),
            statement.bound() == seq![SqlValueModel::Text(start_date@), SqlValueModel::Text(end_date@)] + (
            match account_id {
                Some(id) => seq![SqlValueModel::Integer(id as int)],
                None => Seq::<SqlValueModel>::empty(),
            }),
    {
        let mut parameters: Vec<SqlValue> = Vec::new();
        parameters.push(SqlValue::Text(start_date.to_owned()));
        parameters.push(SqlValue::Text(end_date.to_owned()));
        let statement = match account_id {
            Some(id) => {
                parameters.push(SqlValue::Integer(id));
                Statement {
                    sql: "SELECT c.id, c.name, c.icon, CAST(COALESCE(SUM(ABS(t.amount)), 0) AS REAL) as total_amount, COUNT(t.id) as transaction_count FROM categories c LEFT JOIN transactions t ON t.category_id = c.id AND t.date >= ? AND t.date <= ? AND t.amount < 0 AND t.account_id = ? GROUP BY c.id, c.name, c.icon HAVING total_amount > 0 ORDER BY total_amount DESC".to_owned(),
                    parameters,
                }
            },
            None => Statement {
                sql: "SELECT c.id, c.name, c.icon, CAST(COALESCE(SUM(ABS(t.amount)), 0) AS REAL) as total_amount, COUNT(t.id) as transaction_count FROM categories c LEFT JOIN transactions t ON t.category_id = c.id AND t.date >= ? AND t.date <= ? AND t.amount < 0 GROUP BY c.id, c.name, c.icon HAVING total_amount > 0 ORDER BY total_amount DESC".to_owned(),
                parameters,
            },
        };
        proof {
            assert(statement.bound() =~= seq![SqlValueModel::Text(start_date@), SqlValueModel::Text(end_date@)] + (
            match account_id {
                Some(id) => seq![SqlValueModel::Integer(id as int)],
                None => Seq::<SqlValueModel>::empty(),
            }));
        }
        statement
    }

    /// The spending by category of a period, from what the store reports of each
    /// category: the total of the amounts, and for each category its share in the total.
    pub fn get_spending_by_category(rows: Vec<CategoryRow>, start_date: &str, end_date: &str) -> (spending:
        SpendingByCategory)
        ensures
            spending.period.start_date@ == start_date@,
            spending.period.end_date@ == end_date@,
            spending.total_spending == sum(row_amounts(rows@)),
            spending.categories.len() == rows.len(),
            forall|k: int|
                0 <= k < rows.len() ==> {
                    &&& (#[trigger] spending.categories[k]).category_id == rows[k].category_id
                    &&& spending.categories[k].category_name@ == rows[k].category_name@
                    &&& spending.categories[k].category_icon == rows[k].category_icon
                    &&& spending.categories[k].amount == rows[k].amount
                    &&& spending.categories[k].transaction_count == rows[k].transaction_count
                    &&& spending.categories[k].percentage == share(
                        rows[k].amount as int,
                        sum(row_amounts(rows@)),
                    )
                },
    {
        let mut total_spending: i128 = 0;
        let mut i: usize = 0;
        proof {
            assert(row_amounts(rows@).take(0) =~= Seq::<int>::empty());
        }
        while i < rows.len()
            invariant
                i <= rows.len(),
                total_spending == sum(row_amounts(rows@).take(i as int)),
                -(i as int) * 0x8000_0000_0000_0000 <= total_spending <= i as int * 0x8000_0000_0000_0000,
            decreases rows.len() - i,
        {
            proof {
                lemma_sum_take_step(row_amounts(rows@), i as int);
                let wide = i as int;
                assert(wide * 0x8000_0000_0000_0000 <= 0xffff_ffff_ffff_ffff * 0x8000_0000_0000_0000)
                    by (nonlinear_arith)
                    requires
                        0 <= wide <= 0xffff_ffff_ffff_ffff,
                ;
                assert((wide + 1) * 0x8000_0000_0000_0000 == wide * 0x8000_0000_0000_0000
                    + 0x8000_0000_0000_0000) by (nonlinear_arith);
            }
            total_spending = total_spending + rows[i].amount as i128;
            i += 1;
        }
        proof {
            assert(row_amounts(rows@).take(rows.len() as int) =~= row_amounts(rows@));
        }
        let mut categories: Vec<CategorySpending> = Vec::new();
        let mut i: usize = 0;
        while i < rows.len()
            invariant
                i <= rows.len(),
                categories.len() == i,
                total_spending == sum(row_amounts(rows@)),
                forall|k: int|
                    0 <= k < i ==> {
                        &&& (#[trigger] categories[k]).category_id == rows[k].category_id
                        &&& categories[k].category_name@ == rows[k].category_name@
                        &&& categories[k].category_icon == rows[k].category_icon
                        &&& categories[k].amount == rows[k].amount
                        &&& categories[k].transaction_count == rows[k].transaction_count
                        &&& categories[k].percentage == share(rows[k].amount as int, sum(row_amounts(rows@)))
                    },
            decreases rows.len() - i,
        {
            let row = &rows[i];
            categories.push(
                CategorySpending {
                    category_id: row.category_id,
                    category_name: row.category_name.clone(),
                    category_icon: match &row.category_icon {
                        Some(icon) => Some(icon.clone()),
                        None => None,
                    },
                    amount: row.amount,
                    percentage: share_of(row.amount, total_spending),
                    transaction_count: row.transaction_count,
                },
            );
            i += 1;
        }
        SpendingByCategory {
            period: DatePeriod { start_date: start_date.to_owned(), end_date: end_date.to_owned() },
            categories,
            total_spending,
        }
    }

    /// How many of `count` categories are shown when at most `limit` are asked for: a limit
    /// below zero is no limit.
    pub open spec fn shown(count: int, limit: int) -> int {
        if limit < 0 || limit >= count {
            count
        } else {
            limit
        }
    }

    /// The categories that come first of the spending of a period, at most `limit` of them.
    pub fn get_top_categories(spending: SpendingByCategory, limit: i64) -> (top: Vec<CategorySpending>)
        ensures
            top@ == spending.categories@.take(Self::shown(spending.categories.len() as int, limit as int)),
    {
        let mut categories = spending.categories;
        if limit >= 0 && (limit as u64) < categories.len() as u64 {
            categories.truncate(limit as usize);
        }
        proof {
            assert(categories@ =~= spending.categories@.take(
                Self::shown(spending.categories.len() as int, limit as int),
            ));
        }
        categories
    }

    /// The statement that reports the income between two dates.
    pub fn total_income_statement(start_date: &str, end_date: &str) -> (statement: Statement)
        ensures
            statement.sql@
                == "SELECT CAST(COALESCE(SUM(amount), 0) AS REAL) FROM transactions WHERE date >= ? AND date <= ? AND amount > 0"@,
            statement.bound() == seq![SqlValueModel::Text(start_date@), SqlValueModel::Text(end_date@)],
    {
        let mut parameters: Vec<SqlValue> = Vec::new();
        parameters.push(SqlValue::Text(start_date.to_owned()));
        parameters.push(SqlValue::Text(end_date.to_owned()));
        let statement = Statement {
            sql: "SELECT CAST(COALESCE(SUM(amount), 0) AS REAL) FROM transactions WHERE date >= ? AND date <= ? AND amount > 0".to_owned(),
            parameters,
        };
        proof {
            assert(statement.bound() =~= seq![SqlValueModel::Text(start_date@), SqlValueModel::Text(end_date@)]);
        }
        statement
    }

    /// The statement that reports the spending between two dates.
    pub fn total_spending_statement(start_date: &str, end_date: &str) -> (statement: Statement)
        ensures
            statement.sql@
                == "SELECT CAST(COALESCE(SUM(ABS(amount)), 0) AS REAL) FROM transactions WHERE date >= ? AND date <= ? AND amount < 0"@,
            statement.bound() == seq![SqlValueModel::Text(start_date@), SqlValueModel::Text(end_date@)],
    {
        let mut parameters: Vec<SqlValue> = Vec::new();
        parameters.push(SqlValue::Text(start_date.to_owned()));
        parameters.push(SqlValue::Text(end_date.to_owned()));
        let statement = Statement {
            sql: "SELECT CAST(COALESCE(SUM(ABS(amount)), 0) AS REAL) FROM transactions WHERE date >= ? AND date <= ? AND amount < 0".to_owned(),
            parameters,
        };
        proof {
            assert(statement.bound() =~= seq![SqlValueModel::Text(start_date@), SqlValueModel::Text(end_date@)]);
        }
        statement
    }
}

} // verus!
