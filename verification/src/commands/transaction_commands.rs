use vstd::prelude::*;
use vstd::string::StringExecFns;
use crate::constants::{DEFAULT_OFFSET, DEFAULT_PAGE_SIZE, MAX_PAGE_SIZE};
use crate::db::statement::{SqlValue, SqlValueModel, Statement};
use crate::errors::TransactionError;
use crate::models::transaction::Transaction;
use crate::text::{amount_text, format_amount, join, join3, join_all, joined, texts};

verus! {

#[derive(Debug)]
pub struct TransactionFilter {
    pub account_id: Option<i64>,
    pub category_id: Option<i64>,
    pub start_date: Option<String>,
    pub end_date: Option<String>,
    pub search: Option<String>,
    pub limit: Option<i64>,
    pub offset: Option<i64>,
}

/// The conditions that a filter adds to a query, each with its leading `AND`: one for each
/// field given, in the order account, category, start date, end date, search.
pub open spec fn filter_clauses(filter: TransactionFilter) -> Seq<Seq<char>> {
    (if filter.account_id is Some {
        seq![" AND account_id = ?"@]
    } else {
        Seq::<Seq<char>>::empty()
    }) + (if filter.category_id is Some {
        seq![" AND category_id = ?"@]
    } else {
        Seq::<Seq<char>>::empty()
    }) + (if filter.start_date is Some {
        seq![" AND date >= ?"@]
    } else {
        Seq::<Seq<char>>::empty()
    }) + (if filter.end_date is Some {
        seq![" AND date <= ?"@]
    } else {
        Seq::<Seq<char>>::empty()
    }) + (if filter.search is Some {
        seq![" AND (LOWER(description) LIKE LOWER(?) OR LOWER(merchant) LIKE LOWER(?))"@]
    } else {
        Seq::<Seq<char>>::empty()
    })
}

/// The pattern that finds a text anywhere in a field.
pub open spec fn search_pattern(search: Seq<char>) -> Seq<char> {
    "%"@ + search + "%"@
}

/// The values that a filter binds, in the order of its conditions; the search pattern is
/// bound twice, once for the description and once for the merchant.
pub open spec fn filter_values(filter: TransactionFilter) -> Seq<SqlValueModel> {
    (if filter.account_id is Some {
        seq![SqlValueModel::Integer(filter.account_id->0 as int)]
    } else {
        Seq::<SqlValueModel>::empty()
    }) + (if filter.category_id is Some {
        seq![SqlValueModel::Integer(filter.category_id->0 as int)]
    } else {
        Seq::<SqlValueModel>::empty()
    }) + (if filter.start_date is Some {
        seq![SqlValueModel::Text(filter.start_date->0@)]
    } else {
        Seq::<SqlValueModel>::empty()
    }) + (if filter.end_date is Some {
        seq![SqlValueModel::Text(filter.end_date->0@)]
    } else {
        Seq::<SqlValueModel>::empty()
    }) + (if filter.search is Some {
        seq![
            SqlValueModel::Text(search_pattern(filter.search->0@)),
            SqlValueModel::Text(search_pattern(filter.search->0@)),
        ]
    } else {
        Seq::<SqlValueModel>::empty()
    })
}

// Helper struct to build SQL WHERE clauses for transaction filters
// This eliminates duplication between list and count operations
pub struct TransactionFilterBuilder {
    pub where_clauses: Vec<String>,
    pub parameters: Vec<SqlValue>,
}

impl TransactionFilterBuilder {
    /// The values bound by the conditions, in order.
    pub open spec fn bound(&self) -> Seq<SqlValueModel> {
        self.parameters@.map_values(|v: SqlValue| v@)
    }

    /// Takes from a filter the conditions it adds to a query, and the values they bind.
    pub fn new(filter: &TransactionFilter) -> (builder: Self)
        ensures
            texts(builder.where_clauses@) == filter_clauses(*filter),
            builder.bound() == filter_values(*filter),
    {
        let mut where_clauses: Vec<String> = Vec::new();
        let mut parameters: Vec<SqlValue> = Vec::new();
        let ghost mut clauses: Seq<Seq<char>> = Seq::empty();
        let ghost mut values: Seq<SqlValueModel> = Seq::empty();
        proof {
            assert(texts(where_clauses@) =~= clauses);
            assert(parameters@.map_values(|v: SqlValue| v@) =~= values);
        }
        if let Some(account_id) = filter.account_id {
            where_clauses.push(" AND account_id = ?".to_owned());
            parameters.push(SqlValue::Integer(account_id));
        }
        proof {
            clauses = clauses + (if filter.account_id is Some {
                seq![" AND account_id = ?"@]
            } else {
                Seq::<Seq<char>>::empty()
            });
            values = values + (if filter.account_id is Some {
                seq![SqlValueModel::Integer(filter.account_id->0 as int)]
            } else {
                Seq::<SqlValueModel>::empty()
            });
            assert(texts(where_clauses@) =~= clauses);
            assert(parameters@.map_values(|v: SqlValue| v@) =~= values);
        }
        if let Some(category_id) = filter.category_id {
            where_clauses.push(" AND category_id = ?".to_owned());
            parameters.push(SqlValue::Integer(category_id));
        }
        proof {
            clauses = clauses + (if filter.category_id is Some {
                seq![" AND category_id = ?"@]
            } else {
                Seq::<Seq<char>>::empty()
            });
            values = values + (if filter.category_id is Some {
                seq![SqlValueModel::Integer(filter.category_id->0 as int)]
            } else {
                Seq::<SqlValueModel>::empty()
            });
            assert(texts(where_clauses@) =~= clauses);
            assert(parameters@.map_values(|v: SqlValue| v@) =~= values);
        }
        match &filter.start_date {
            Some(start_date) => {
                where_clauses.push(" AND date >= ?".to_owned());
                parameters.push(SqlValue::Text(start_date.clone()));
            },
            None => {},
        }
        proof {
            clauses = clauses + (if filter.start_date is Some {
                seq![" AND date >= ?"@]
            } else {
                Seq::<Seq<char>>::empty()
            });
            values = values + (if filter.start_date is Some {
                seq![SqlValueModel::Text(filter.start_date->0@)]
            } else {
                Seq::<SqlValueModel>::empty()
            });
            assert(texts(where_clauses@) =~= clauses);
            assert(parameters@.map_values(|v: SqlValue| v@) =~= values);
        }
        match &filter.end_date {
            Some(end_date) => {
                where_clauses.push(" AND date <= ?".to_owned());
                parameters.push(SqlValue::Text(end_date.clone()));
            },
            None => {},
        }
        proof {
            clauses = clauses + (if filter.end_date is Some {
                seq![" AND date <= ?"@]
            } else {
                Seq::<Seq<char>>::empty()
            });
            values = values + (if filter.end_date is Some {
                seq![SqlValueModel::Text(filter.end_date->0@)]
            } else {
                Seq::<SqlValueModel>::empty()
            });
            assert(texts(where_clauses@) =~= clauses);
            assert(parameters@.map_values(|v: SqlValue| v@) =~= values);
        }
        match &filter.search {
            Some(search) => {
                where_clauses.push(
                    " AND (LOWER(description) LIKE LOWER(?) OR LOWER(merchant) LIKE LOWER(?))".to_owned(),
                );
                // Format search pattern here to own it
                parameters.push(SqlValue::Text(join3("%", search.as_str(), "%")));
                parameters.push(SqlValue::Text(join3("%", search.as_str(), "%")));
            },
            None => {},
        }
        proof {
            clauses = clauses + (if filter.search is Some {
                seq![" AND (LOWER(description) LIKE LOWER(?) OR LOWER(merchant) LIKE LOWER(?))"@]
            } else {
                Seq::<Seq<char>>::empty()
            });
            values = values + (if filter.search is Some {
                seq![
                    SqlValueModel::Text(search_pattern(filter.search->0@)),
                    SqlValueModel::Text(search_pattern(filter.search->0@)),
                ]
            } else {
                Seq::<SqlValueModel>::empty()
            });
            assert(texts(where_clauses@) =~= clauses);
            assert(parameters@.map_values(|v: SqlValue| v@) =~= values);
        }
        Self { where_clauses, parameters }
    }

    /// The conditions, one after the other.
    pub fn build_where_clause(&self) -> (clause: String)
        ensures
            clause@ == joined(texts(self.where_clauses@), ""@),
    {
        join_all(&self.where_clauses, "")
    }
}

/// The filter that applies where none is given.
pub fn default_filter() -> (filter: TransactionFilter)
    ensures
        filter.account_id is None,
        filter.category_id is None,
        filter.start_date is None,
        filter.end_date is None,
        filter.search is None,
        filter.limit == Some(DEFAULT_PAGE_SIZE),
        filter.offset == Some(DEFAULT_OFFSET),
{
    TransactionFilter {
        account_id: None,
        category_id: None,
        start_date: None,
        end_date: None,
        search: None,
        limit: Some(DEFAULT_PAGE_SIZE),
        offset: Some(DEFAULT_OFFSET),
    }
}

/// The number of transactions on a page: what the filter asks for, or the default, and
/// never more than the largest page.
pub open spec fn page_limit(limit: Option<i64>) -> int {
    let asked = match limit {
        Some(n) => n as int,
        None => DEFAULT_PAGE_SIZE as int,
    };
    if asked <= MAX_PAGE_SIZE {
        asked
    } else {
        MAX_PAGE_SIZE as int
    }
}

/// Where the page begins: where the filter says, or at the start.
pub open spec fn page_offset(offset: Option<i64>) -> int {
    match offset {
        Some(n) => n as int,
        None => DEFAULT_OFFSET as int,
    }
}

/// The statement that lists a page of the transactions that pass a filter, the latest
/// first.
pub fn list_transactions_statement(filter: &TransactionFilter) -> (statement: Statement)
    ensures
        statement.sql@
            == "SELECT id, account_id, category_id, date, amount, description, merchant, hash, created_at FROM transactions WHERE 1=1"@
            + joined(filter_clauses(*filter), ""@) + " ORDER BY date DESC LIMIT ? OFFSET ?"@,
        statement.bound() == filter_values(*filter) + seq![
            SqlValueModel::Integer(page_limit(filter.limit)),
            SqlValueModel::Integer(page_offset(filter.offset)),
        ],
{
    // ALWAYS enforce pagination defaults and maximum page size
    // This prevents returning all transactions at once, which could cause performance issues
    let asked = match filter.limit {
        Some(n) => n,
        None => DEFAULT_PAGE_SIZE,
    };
    let limit = if asked <= MAX_PAGE_SIZE {
        asked
    } else {
        MAX_PAGE_SIZE
    };
    let offset = match filter.offset {
        Some(n) => n,
        None => DEFAULT_OFFSET,
    };
    // Build WHERE clause using helper to avoid duplication
    let builder = TransactionFilterBuilder::new(filter);
    let sql = join3(
        "SELECT id, account_id, category_id, date, amount, description, merchant, hash, created_at FROM transactions WHERE 1=1",
        builder.build_where_clause().as_str(),
        " ORDER BY date DESC LIMIT ? OFFSET ?",
    );
    // Bind filter parameters first, then pagination
    let mut parameters = builder.parameters;
    let ghost filtered = parameters@.map_values(|v: SqlValue| v@);
    parameters.push(SqlValue::Integer(limit));
    parameters.push(SqlValue::Integer(offset));
    let statement = Statement { sql, parameters };
    proof {
        assert(statement.bound() =~= filtered + seq![
            SqlValueModel::Integer(page_limit(filter.limit)),
            SqlValueModel::Integer(page_offset(filter.offset)),
        ]);
    }
    statement
}

/// The statement that counts the transactions that pass a filter.
pub fn count_transactions_statement(filter: &TransactionFilter) -> (statement: Statement)
    ensures
        statement.sql@ == "SELECT COUNT(*) FROM transactions WHERE 1=1"@ + joined(filter_clauses(*filter), ""@),
        statement.bound() == filter_values(*filter),
{
    let builder = TransactionFilterBuilder::new(filter);
    let sql = join("SELECT COUNT(*) FROM transactions WHERE 1=1", builder.build_where_clause().as_str());
    Statement { sql, parameters: builder.parameters }
}

/// The longest text that may be searched for, in bytes.
pub const MAX_SEARCH_LENGTH: usize = 100;

/// The filter of a search: the filter given, or the default, with the text searched for.
/// A text that is too long is refused.
pub fn search_filter(query: String, filter: Option<TransactionFilter>) -> (result: Result<
    TransactionFilter,
    TransactionError,
>)
    ensures
        match result {
            Ok(searching) => {
                &&& vstd::utf8::encode_utf8(query@).len() <= MAX_SEARCH_LENGTH
                &&& searching.search == Some(query)
                &&& match filter {
                    Some(given) => {
                        &&& searching.account_id == given.account_id
                        &&& searching.category_id == given.category_id
                        &&& searching.start_date == given.start_date
                        &&& searching.end_date == given.end_date
                        &&& searching.limit == given.limit
                        &&& searching.offset == given.offset
                    },
                    None => {
                        &&& searching.account_id is None
                        &&& searching.category_id is None
                        &&& searching.start_date is None
                        &&& searching.end_date is None
                        &&& searching.limit == Some(DEFAULT_PAGE_SIZE)
                        &&& searching.offset == Some(DEFAULT_OFFSET)
                    },
                }
            },
            Err(e) => {
                &&& vstd::utf8::encode_utf8(query@).len() > MAX_SEARCH_LENGTH
                &&& e matches TransactionError::ValidationError(reason)
                &&& reason@ == "Search query too long (max 100 characters)"@
            },
        },
{
    // Validate query length
    if query.as_str().as_bytes().len() > MAX_SEARCH_LENGTH {
        return Err(TransactionError::ValidationError("Search query too long (max 100 characters)".to_owned()));
    }
    // Add search to filter
    let mut search_filter = match filter {
        Some(given) => given,
        None => default_filter(),
    };
    search_filter.search = Some(query);
    Ok(search_filter)
}

// Bulk operations

/// The most transactions that one bulk operation takes.
pub const MAX_BULK_SIZE: usize = 1000;

/// What a bulk operation does to transactions.
#[derive(Debug, Clone, Copy, PartialEq, Eq, Structural)]
pub enum BulkAction {
    Delete,
    Update,
}

/// What is said against a bulk operation on too many transactions.
pub open spec fn too_many_text(action: BulkAction) -> Seq<char> {
    match action {
        BulkAction::Delete => "Cannot delete more than 1000 transactions at once"@,
        BulkAction::Update => "Cannot update more than 1000 transactions at once"@,
    }
}

/// Checks the transactions named for a bulk operation: there has to be one at least, and
/// no more than the operation takes.
pub fn validate_bulk_ids(transaction_ids: &Vec<i64>, action: BulkAction) -> (result: Result<(), TransactionError>)
    ensures
        0 < transaction_ids.len() <= MAX_BULK_SIZE ==> result is Ok,
        transaction_ids.len() == 0 ==> (result matches Err(TransactionError::ValidationError(reason)) && reason@
            == "Transaction IDs cannot be empty"@),
        transaction_ids.len() > MAX_BULK_SIZE ==> (result matches Err(TransactionError::ValidationError(reason))
            && reason@ == too_many_text(action)),
{
    // Validate input
    if transaction_ids.len() == 0 {
        return Err(TransactionError::ValidationError("Transaction IDs cannot be empty".to_owned()));
    }
    if transaction_ids.len() > MAX_BULK_SIZE {
        return Err(
            TransactionError::ValidationError(
                match action {
                    BulkAction::Delete => "Cannot delete more than 1000 transactions at once".to_owned(),
                    BulkAction::Update => "Cannot update more than 1000 transactions at once".to_owned(),
                },
            ),
        );
    }
    Ok(())
}

#[derive(Debug)]
pub struct BulkDeleteResult {
    pub success: bool,
    pub deleted_count: i64,
    pub failed_ids: Vec<i64>,
}

#[derive(Debug)]
pub struct BulkUpdateResult {
    pub success: bool,
    pub updated_count: i64,
    pub failed_ids: Vec<i64>,
}

/// How many of the first operations went through.
pub open spec fn done_count(done: Seq<bool>) -> nat
    decreases done.len(),
{
    if done.len() == 0 {
        0
    } else {
        done_count(done.drop_last()) + if done.last() {
            1nat
        } else {
            0nat
        }
    }
}

/// The transactions whose operation failed, in the order given.
pub open spec fn failed_of(ids: Seq<i64>, done: Seq<bool>) -> Seq<i64>
    decreases ids.len(),
{
    if ids.len() == 0 || done.len() != ids.len() {
        Seq::empty()
    } else if done.last() {
        failed_of(ids.drop_last(), done.drop_last())
    } else {
        failed_of(ids.drop_last(), done.drop_last()).push(ids.last())
    }
}

/// Counts the operations that went through and lists the transactions whose operation
/// failed: `done[k]` tells whether the operation on `ids[k]` went through.
pub fn tally(ids: &Vec<i64>, done: &Vec<bool>) -> (out: (i64, Vec<i64>))
    requires
        ids.len() == done.len(),
        ids.len() <= MAX_BULK_SIZE,
    ensures
        out.0 == done_count(done@),
        out.1@ == failed_of(ids@, done@),
{
    let mut count: i64 = 0;
    let mut failed_ids: Vec<i64> = Vec::new();
    let mut i: usize = 0;
    proof {
        assert(failed_ids@ =~= failed_of(ids@.take(0), done@.take(0)));
    }
    while i < ids.len()
        invariant
            i <= ids.len(),
            ids.len() == done.len(),
            ids.len() <= MAX_BULK_SIZE,
            count == done_count(done@.take(i as int)),
            count <= i,
            failed_ids@ == failed_of(ids@.take(i as int), done@.take(i as int)),
        decreases ids.len() - i,
    {
        proof {
            assert(done@.take(i as int + 1).drop_last() =~= done@.take(i as int));
            assert(ids@.take(i as int + 1).drop_last() =~= ids@.take(i as int));
        }
        if done[i] {
            count += 1;
        } else {
            failed_ids.push(ids[i]);
        }
        i += 1;
    }
    proof {
        assert(done@.take(ids.len() as int) =~= done@);
        assert(ids@.take(ids.len() as int) =~= ids@);
    }
    (count, failed_ids)
}

/// The result of a bulk deletion.
pub fn bulk_delete_result(ids: &Vec<i64>, done: &Vec<bool>) -> (result: BulkDeleteResult)
    requires
        ids.len() == done.len(),
        ids.len() <= MAX_BULK_SIZE,
    ensures
        result.success,
        result.deleted_count == done_count(done@),
        result.failed_ids@ == failed_of(ids@, done@),
{
    let (deleted_count, failed_ids) = tally(ids, done);
    BulkDeleteResult { success: true, deleted_count, failed_ids }
}

/// The result of a bulk update.
pub fn bulk_update_result(ids: &Vec<i64>, done: &Vec<bool>) -> (result: BulkUpdateResult)
    requires
        ids.len() == done.len(),
        ids.len() <= MAX_BULK_SIZE,
    ensures
        result.success,
        result.updated_count == done_count(done@),
        result.failed_ids@ == failed_of(ids@, done@),
{
    let (updated_count, failed_ids) = tally(ids, done);
    BulkUpdateResult { success: true, updated_count, failed_ids }
}

// Categorization

#[derive(Debug)]
pub struct CategorizeResult {
    pub category_id: i64,
    pub matched_rule_id: Option<i64>,
}

// Export

#[derive(Debug)]
pub struct ExportResult {
    pub success: bool,
    pub file_path: String,
    pub record_count: usize,
}

/// The form in which transactions are exported.
#[derive(Debug, Clone, Copy, PartialEq, Eq, Structural)]
pub enum ExportFormat {
    Csv,
    Json,
}

impl ExportFormat {
    /// The form that a name stands for, if it is the name of one.
    pub open spec fn named(name: Seq<char>) -> Option<ExportFormat> {
        if name == "csv"@ {
            Some(ExportFormat::Csv)
        } else if name == "json"@ {
            Some(ExportFormat::Json)
        } else {
            None
        }
    }

    /// Reads a form from its name; any other text is refused.
    pub fn parse(name: &str) -> (format: Result<ExportFormat, TransactionError>)
        ensures
            match ExportFormat::named(name@) {
                Some(f) => format == Ok::<ExportFormat, TransactionError>(f),
                None => format matches Err(TransactionError::Database(detail)) && detail@
                    == "Unsupported format: "@ + name@,
            },
    {
        let given = name.to_owned();
        if given == "csv".to_owned() {
            Ok(ExportFormat::Csv)
        } else if given == "json".to_owned() {
            Ok(ExportFormat::Json)
        } else {
            Err(TransactionError::Database(join("Unsupported format: ", name)))
        }
    }
}

/// The name of a category: that of the last pair with the transaction's number, or
/// "Unknown" if there is none.
pub open spec fn category_name_of(names: Seq<(i64, String)>, id: i64) -> Seq<char>
    decreases names.len(),
{
    if names.len() == 0 {
        "Unknown"@
    } else if names.last().0 == id {
        names.last().1@
    } else {
        category_name_of(names.drop_last(), id)
    }
}

/// The line of a transaction in an export: its date, its amount in currency units, its
/// description, its merchant if it has one, and the name of its category, with commas
/// between them.
pub open spec fn export_line(transaction: Transaction, names: Seq<(i64, String)>) -> Seq<char> {
    transaction.date@ + ","@ + amount_text(transaction.amount as int) + ","@ + transaction.description@ + ","@ + (
    match transaction.merchant {
        Some(m) => m@,
        None => ""@,
    }) + ","@ + category_name_of(names, transaction.id) + "\n"@
}

/// The lines of the transactions, one after the other.
pub open spec fn export_lines(transactions: Seq<Transaction>, names: Seq<(i64, String)>) -> Seq<char>
    decreases transactions.len(),
{
    if transactions.len() == 0 {
        Seq::empty()
    } else {
        export_lines(transactions.drop_last(), names) + export_line(transactions.last(), names)
    }
}

/// Finds the name of the category of a transaction.
fn find_category_name(names: &Vec<(i64, String)>, id: i64) -> (name: String)
    ensures
        name@ == category_name_of(names@, id),
{
    let mut i: usize = names.len();
    proof {
        assert(names@.take(names.len() as int) =~= names@);
    }
    while i > 0
        invariant
            i <= names.len(),
            category_name_of(names@, id) == category_name_of(names@.take(i as int), id),
        decreases i,
    {
        proof {
            assert(names@.take(i as int).drop_last() =~= names@.take(i as int - 1));
            assert(names@.take(i as int).last() == names@[i as int - 1]);
        }
        i -= 1;
        if names[i].0 == id {
            return names[i].1.clone();
        }
    }
    proof {
        assert(names@.take(0).len() == 0);
    }
    "Unknown".to_owned()
}

/// Writes the transactions as comma-separated values: a line of headings, and a line for
/// each transaction.
pub fn export_csv(transactions: &Vec<Transaction>, category_names: &Vec<(i64, String)>) -> (csv_content: String)
    ensures
        csv_content@ == "Date,Amount,Description,Merchant,Category\n"@ + export_lines(
            transactions@,
            category_names@,
        ),
{
    // Create CSV content
    let mut csv_content = "Date,Amount,Description,Merchant,Category\n".to_owned();
    let mut i: usize = 0;
    proof {
        assert(transactions@.take(0) =~= Seq::<Transaction>::empty());
        assert(csv_content@ =~= "Date,Amount,Description,Merchant,Category\n"@ + export_lines(
            transactions@.take(0),
            category_names@,
        ));
    }
    while i < transactions.len()
        invariant
            i <= transactions.len(),
            csv_content@ == "Date,Amount,Description,Merchant,Category\n"@ + export_lines(
                transactions@.take(i as int),
                category_names@,
            ),
        decreases transactions.len() - i,
    {
        let transaction = &transactions[i];
        let ghost before = csv_content@;
        proof {
            assert(transactions@.take(i as int + 1).drop_last() =~= transactions@.take(i as int));
            assert(transactions@.take(i as int + 1).last() == transactions@[i as int]);
        }
        let category_name = find_category_name(category_names, transaction.id);
        let mut line = transaction.date.clone();
        line.append(",");
        line.append(format_amount(transaction.amount as i128).as_str());
        line.append(",");
        line.append(transaction.description.as_str());
        line.append(",");
        match &transaction.merchant {
            Some(merchant) => {
                line.append(merchant.as_str());
            },
            None => {
                line.append("");
            },
        }
        line.append(",");
        line.append(category_name.as_str());
        line.append("\n");
        proof {
            assert(line@ =~= export_line(*transaction, category_names@));
        }
        csv_content.append(line.as_str());
        proof {
            assert(csv_content@ =~= "Date,Amount,Description,Merchant,Category\n"@ + (export_lines(
                transactions@.take(i as int),
                category_names@,
            ) + export_line(*transaction, category_names@)));
        }
        i += 1;
    }
    proof {
        assert(transactions@.take(transactions.len() as int) =~= transactions@);
    }
    csv_content
}

/// One placeholder for each of `count` values, with commas between them.
pub open spec fn placeholders(count: nat) -> Seq<char> {
    joined(Seq::new(count, |k: int| "?"@), ","@)
}

/// The statement that reads the names of the categories of the transactions with the
/// numbers given.
pub fn category_names_statement(transaction_ids: &Vec<i64>) -> (statement: Statement)
    ensures
        statement.sql@
            == "SELECT t.id, c.name FROM transactions t JOIN categories c ON t.category_id = c.id WHERE t.id IN ("@
            + placeholders(transaction_ids.len() as nat) + ")"@,
        statement.bound() == transaction_ids@.map_values(|id: i64| SqlValueModel::Integer(id as int)),
{
    let mut marks: Vec<String> = Vec::new();
    let mut parameters: Vec<SqlValue> = Vec::new();
    let mut i: usize = 0;
    while i < transaction_ids.len()
        invariant
            i <= transaction_ids.len(),
            marks.len() == i,
            parameters.len() == i,
            forall|k: int| 0 <= k < i ==> (#[trigger] marks[k])@ == "?"@,
            forall|k: int| 0 <= k < i ==> (#[trigger] parameters[k])@ == SqlValueModel::Integer(transaction_ids[k] as int),
        decreases transaction_ids.len() - i,
    {
        marks.push("?".to_owned());
        parameters.push(SqlValue::Integer(transaction_ids[i]));
        i += 1;
    }
    proof {
        assert(texts(marks@) =~= Seq::new(transaction_ids.len() as nat, |k: int| "?"@));
    }
    let statement = Statement {
        sql: join3(
            "SELECT t.id, c.name FROM transactions t JOIN categories c ON t.category_id = c.id WHERE t.id IN (",
            join_all(&marks, ",").as_str(),
            ")",
        ),
        parameters,
    };
    proof {
        assert(statement.bound() =~= transaction_ids@.map_values(|id: i64| SqlValueModel::Integer(id as int)));
    }
    statement
}

/// The result of an export that went through.
pub fn export_result(output_path: String, record_count: usize) -> (result: ExportResult)
    ensures
        result.success,
        result.file_path == output_path,
        result.record_count == record_count,
{
    ExportResult { success: true, file_path: output_path, record_count }
}

} // verus!
