use vstd::prelude::*;
use vstd::string::{StringExecFns, StringSliceAdditionalSpecFns};
use crate::commands::category_commands::optional_text;
use crate::constants::{MAX_CSV_FILE_SIZE, MAX_CSV_ROWS, MIN_CSV_IMPORT_INTERVAL_MS};
use crate::db::statement::{SqlValue, SqlValueModel, Statement, text_or_null};
use crate::errors::CsvImportError;
use crate::models::column_mapping::{GetColumnMappingQuery, NewColumnMapping, UpdateColumnMapping};
use crate::services::csv_parser::{csv_header_row, CsvParser};
use crate::services::transaction_importer::ImportStats;
use crate::text::{
    count_lines, decimal, decimal_text, decimal_u64, join3, join_all, joined, line_count, parse_u64,
    texts,
};
use crate::utils::rate_limiter::RateLimiter;

verus! {

#[derive(Debug)]
pub struct ImportResult {
    pub success: bool,
    pub total: usize,
    pub imported: usize,
    pub duplicates: usize,
    pub errors: usize,
    pub message: String,
}

/// The least time between two imports, in milliseconds: what is configured, if that is a
/// number, and else two seconds.
pub fn get_rate_limit_interval(configured: Option<String>) -> (interval: u64)
    ensures
        interval == (match configured {
            Some(text) => match decimal_u64(vstd::utf8::encode_utf8(text@)) {
                Some(n) => n,
                None => MIN_CSV_IMPORT_INTERVAL_MS as int,
            },
            None => MIN_CSV_IMPORT_INTERVAL_MS as int,
        }),
{
    match configured {
        Some(text) => match parse_u64(text.as_str()) {
            Some(n) => n,
            None => MIN_CSV_IMPORT_INTERVAL_MS,
        },
        None => MIN_CSV_IMPORT_INTERVAL_MS,
    }
}

// Column Mapping Management Functions

/// The columns that are read of a column mapping.
pub open spec fn mapping_columns() -> Seq<char> {
    "SELECT id, source_name, date_col, amount_col, description_col, merchant_col, created_at, updated_at FROM column_mappings"@
}

/// The statement that finds the mapping of a source.
pub fn find_mapping_by_source(source_name: &str) -> (statement: Statement)
    ensures
        statement.sql@ == mapping_columns() + " WHERE source_name = ?"@,
        statement.bound() == seq![SqlValueModel::Text(source_name@)],
{
    let mut parameters: Vec<SqlValue> = Vec::new();
    parameters.push(SqlValue::Text(source_name.to_owned()));
    let statement = Statement {
        sql: "SELECT id, source_name, date_col, amount_col, description_col, merchant_col, created_at, updated_at FROM column_mappings".to_owned().concat(
            " WHERE source_name = ?",
        ),
        parameters,
    };
    proof {
        assert(statement.bound() =~= seq![SqlValueModel::Text(source_name@)]);
    }
    statement
}

/// The statement that finds the mapping with a number.
pub fn find_mapping_by_id(id: i64) -> (statement: Statement)
    ensures
        statement.sql@ == mapping_columns() + " WHERE id = ?"@,
        statement.bound() == seq![SqlValueModel::Integer(id as int)],
{
    let mut parameters: Vec<SqlValue> = Vec::new();
    parameters.push(SqlValue::Integer(id));
    let statement = Statement {
        sql: "SELECT id, source_name, date_col, amount_col, description_col, merchant_col, created_at, updated_at FROM column_mappings".to_owned().concat(
            " WHERE id = ?",
        ),
        parameters,
    };
    proof {
        assert(statement.bound() =~= seq![SqlValueModel::Integer(id as int)]);
    }
    statement
}

/// The statement that lists the mappings by source.
pub fn list_column_mappings_statement() -> (statement: Statement)
    ensures
        statement.sql@ == mapping_columns() + " ORDER BY source_name ASC"@,
        statement.parameters@.len() == 0,
{
    Statement {
        sql: "SELECT id, source_name, date_col, amount_col, description_col, merchant_col, created_at, updated_at FROM column_mappings".to_owned().concat(
            " ORDER BY source_name ASC",
        ),
        parameters: Vec::new(),
    }
}

/// The statement that saves a mapping: it writes the columns of the mapping that the
/// source has already, if `existing_id` gives one, and else stores a new mapping.
pub fn save_column_mapping_statement(existing_id: Option<i64>, mapping: &NewColumnMapping) -> (statement: Statement)
    ensures
        match existing_id {
            Some(id) => {
                &&& statement.sql@
                    == "UPDATE column_mappings SET date_col = ?, amount_col = ?, description_col = ?, merchant_col = ?, updated_at = CURRENT_TIMESTAMP WHERE id = ?"@
                &&& statement.bound() == seq![
                    SqlValueModel::Text(mapping.date_col@),
                    SqlValueModel::Text(mapping.amount_col@),
                    SqlValueModel::Text(mapping.description_col@),
                    text_or_null(mapping.merchant_col),
                    SqlValueModel::Integer(id as int),
                ]
            },
            None => {
                &&& statement.sql@
                    == "INSERT INTO column_mappings (source_name, date_col, amount_col, description_col, merchant_col) VALUES (?, ?, ?, ?, ?)"@
                &&& statement.bound() == seq![
                    SqlValueModel::Text(mapping.source_name@),
                    SqlValueModel::Text(mapping.date_col@),
                    SqlValueModel::Text(mapping.amount_col@),
                    SqlValueModel::Text(mapping.description_col@),
                    text_or_null(mapping.merchant_col),
                ]
            },
        },
{
    let mut parameters: Vec<SqlValue> = Vec::new();
    match existing_id {
        Some(id) => {
            // Update existing mapping
            parameters.push(SqlValue::Text(mapping.date_col.clone()));
            parameters.push(SqlValue::Text(mapping.amount_col.clone()));
            parameters.push(SqlValue::Text(mapping.description_col.clone()));
            parameters.push(optional_text(&mapping.merchant_col));
            parameters.push(SqlValue::Integer(id));
            let statement = Statement {
                sql: "UPDATE column_mappings SET date_col = ?, amount_col = ?, description_col = ?, merchant_col = ?, updated_at = CURRENT_TIMESTAMP WHERE id = ?".to_owned(),
                parameters,
            };
            proof {
                assert(statement.bound() =~= seq![
                    SqlValueModel::Text(mapping.date_col@),
                    SqlValueModel::Text(mapping.amount_col@),
                    SqlValueModel::Text(mapping.description_col@),
                    text_or_null(mapping.merchant_col),
                    SqlValueModel::Integer(id as int),
                ]);
            }
            statement
        },
        None => {
            // Create new mapping
            parameters.push(SqlValue::Text(mapping.source_name.clone()));
            parameters.push(SqlValue::Text(mapping.date_col.clone()));
            parameters.push(SqlValue::Text(mapping.amount_col.clone()));
            parameters.push(SqlValue::Text(mapping.description_col.clone()));
            parameters.push(optional_text(&mapping.merchant_col));
            let statement = Statement {
                sql: "INSERT INTO column_mappings (source_name, date_col, amount_col, description_col, merchant_col) VALUES (?, ?, ?, ?, ?)".to_owned(),
                parameters,
            };
            proof {
                assert(statement.bound() =~= seq![
                    SqlValueModel::Text(mapping.source_name@),
                    SqlValueModel::Text(mapping.date_col@),
                    SqlValueModel::Text(mapping.amount_col@),
                    SqlValueModel::Text(mapping.description_col@),
                    text_or_null(mapping.merchant_col),
                ]);
            }
            statement
        },
    }
}

/// The statement that finds the mapping asked for: by its number, if one is given, and else
/// by its source. A query that gives neither is refused.
pub fn get_column_mapping_statement(query: &GetColumnMappingQuery) -> (result: Result<Statement, String>)
    ensures
        match result {
            Ok(statement) => match (query.id, query.source_name) {
                (Some(id), _) => statement.sql@ == mapping_columns() + " WHERE id = ?"@ && statement.bound()
                    == seq![SqlValueModel::Integer(id as int)],
                (None, Some(source_name)) => statement.sql@ == mapping_columns() + " WHERE source_name = ?"@
                    && statement.bound() == seq![SqlValueModel::Text(source_name@)],
                (None, None) => false,
            },
            Err(message) => query.id is None && query.source_name is None && message@
                == "Either id or source_name must be provided"@,
        },
{
    // If both provided, id takes precedence
    match (query.id, &query.source_name) {
        (Some(id), _) => Ok(find_mapping_by_id(id)),
        (None, Some(source_name)) => Ok(find_mapping_by_source(source_name.as_str())),
        // Validate that at least one parameter is provided
        (None, None) => Err("Either id or source_name must be provided".to_owned()),
    }
}

/// What is said of a mapping asked for that is not there.
pub fn column_mapping_not_found(query: &GetColumnMappingQuery) -> (message: String)
    ensures
        message@ == (match (query.id, query.source_name) {
            (Some(id), _) => "Column mapping with id "@ + decimal_text(id as int) + " not found"@,
            (None, Some(source_name)) => "Column mapping with source_name '"@ + source_name@ + "' not found"@,
            (None, None) => "Either id or source_name must be provided"@,
        }),
{
    match (query.id, &query.source_name) {
        (Some(id), _) => join3("Column mapping with id ", decimal(id as i128).as_str(), " not found"),
        (None, Some(source_name)) => join3(
            "Column mapping with source_name '",
            source_name.as_str(),
            "' not found",
        ),
        (None, None) => "Either id or source_name must be provided".to_owned(),
    }
}

/// What is said of a mapping with a number that is not there.
pub fn column_mapping_id_not_found(id: i64) -> (message: String)
    ensures
        message@ == "Column mapping with id "@ + decimal_text(id as int) + " not found"@,
{
    join3("Column mapping with id ", decimal(id as i128).as_str(), " not found")
}

/// The update names no field to change.
pub open spec fn changes_nothing(update: UpdateColumnMapping) -> bool {
    &&& update.source_name is None
    &&& update.date_col is None
    &&& update.amount_col is None
    &&& update.description_col is None
    &&& update.merchant_col is None
}

/// The assignments of the statement that updates a mapping: one for each field given, and
/// the time of the update.
pub open spec fn mapping_assignments(update: UpdateColumnMapping) -> Seq<Seq<char>> {
    (if update.source_name is Some {
        seq!["source_name = ?"@]
    } else {
        Seq::<Seq<char>>::empty()
    }) + (if update.date_col is Some {
        seq!["date_col = ?"@]
    } else {
        Seq::<Seq<char>>::empty()
    }) + (if update.amount_col is Some {
        seq!["amount_col = ?"@]
    } else {
        Seq::<Seq<char>>::empty()
    }) + (if update.description_col is Some {
        seq!["description_col = ?"@]
    } else {
        Seq::<Seq<char>>::empty()
    }) + (if update.merchant_col is Some {
        seq!["merchant_col = ?"@]
    } else {
        Seq::<Seq<char>>::empty()
    }) + seq!["updated_at = CURRENT_TIMESTAMP"@]
}

/// The values of the statement that updates a mapping: the fields given, in the order of
/// the assignments, and the mapping's number. A merchant column that is given as none is
/// bound as no value.
pub open spec fn mapping_values(update: UpdateColumnMapping) -> Seq<SqlValueModel> {
    (if update.source_name is Some {
        seq![SqlValueModel::Text(update.source_name->0@)]
    } else {
        Seq::<SqlValueModel>::empty()
    }) + (if update.date_col is Some {
        seq![SqlValueModel::Text(update.date_col->0@)]
    } else {
        Seq::<SqlValueModel>::empty()
    }) + (if update.amount_col is Some {
        seq![SqlValueModel::Text(update.amount_col->0@)]
    } else {
        Seq::<SqlValueModel>::empty()
    }) + (if update.description_col is Some {
        seq![SqlValueModel::Text(update.description_col->0@)]
    } else {
        Seq::<SqlValueModel>::empty()
    }) + (if update.merchant_col is Some {
        seq![text_or_null(update.merchant_col->0)]
    } else {
        Seq::<SqlValueModel>::empty()
    }) + seq![SqlValueModel::Integer(update.id as int)]
}

/// Builds the statement that updates the fields given of a mapping. An update that gives
/// no field is refused.
pub fn update_column_mapping_statement(update: &UpdateColumnMapping) -> (result: Result<Statement, String>)
    ensures
        match result {
            Ok(statement) => {
                &&& !changes_nothing(*update)
                &&& statement.sql@ == "UPDATE column_mappings SET "@ + joined(mapping_assignments(*update), ", "@)
                    + " WHERE id = ?"@
                &&& statement.bound() == mapping_values(*update)
            },
            Err(message) => changes_nothing(*update) && message@
                == "At least one field must be provided for update"@,
        },
{
    // Build update query based on provided fields
    let mut updates: Vec<String> = Vec::new();
    let mut parameters: Vec<SqlValue> = Vec::new();
    let ghost mut names: Seq<Seq<char>> = Seq::empty();
    let ghost mut values: Seq<SqlValueModel> = Seq::empty();
    proof {
        assert(texts(updates@) =~= names);
        assert(parameters@.map_values(|v: SqlValue| v@) =~= values);
    }
    match &update.source_name {
        Some(source_name) => {
            updates.push("source_name = ?".to_owned());
            parameters.push(SqlValue::Text(source_name.clone()));
        },
        None => {},
    }
    proof {
        names = names + (if update.source_name is Some {
            seq!["source_name = ?"@]
        } else {
            Seq::<Seq<char>>::empty()
        });
        values = values + (if update.source_name is Some {
            seq![SqlValueModel::Text(update.source_name->0@)]
        } else {
            Seq::<SqlValueModel>::empty()
        });
        assert(texts(updates@) =~= names);
        assert(parameters@.map_values(|v: SqlValue| v@) =~= values);
    }
    match &update.date_col {
        Some(date_col) => {
            updates.push("date_col = ?".to_owned());
            parameters.push(SqlValue::Text(date_col.clone()));
        },
        None => {},
    }
    proof {
        names = names + (if update.date_col is Some {
            seq!["date_col = ?"@]
        } else {
            Seq::<Seq<char>>::empty()
        });
        values = values + (if update.date_col is Some {
            seq![SqlValueModel::Text(update.date_col->0@)]
        } else {
            Seq::<SqlValueModel>::empty()
        });
        assert(texts(updates@) =~= names);
        assert(parameters@.map_values(|v: SqlValue| v@) =~= values);
    }
    match &update.amount_col {
        Some(amount_col) => {
            updates.push("amount_col = ?".to_owned());
            parameters.push(SqlValue::Text(amount_col.clone()));
        },
        None => {},
    }
    proof {
        names = names + (if update.amount_col is Some {
            seq!["amount_col = ?"@]
        } else {
            Seq::<Seq<char>>::empty()
        });
        values = values + (if update.amount_col is Some {
            seq![SqlValueModel::Text(update.amount_col->0@)]
        } else {
            Seq::<SqlValueModel>::empty()
        });
        assert(texts(updates@) =~= names);
        assert(parameters@.map_values(|v: SqlValue| v@) =~= values);
    }
    match &update.description_col {
        Some(description_col) => {
            updates.push("description_col = ?".to_owned());
            parameters.push(SqlValue::Text(description_col.clone()));
        },
        None => {},
    }
    proof {
        names = names + (if update.description_col is Some {
            seq!["description_col = ?"@]
        } else {
            Seq::<Seq<char>>::empty()
        });
        values = values + (if update.description_col is Some {
            seq![SqlValueModel::Text(update.description_col->0@)]
        } else {
            Seq::<SqlValueModel>::empty()
        });
        assert(texts(updates@) =~= names);
        assert(parameters@.map_values(|v: SqlValue| v@) =~= values);
    }
    match &update.merchant_col {
        Some(merchant_col) => {
            updates.push("merchant_col = ?".to_owned());
            parameters.push(optional_text(merchant_col));
        },
        None => {},
    }
    proof {
        names = names + (if update.merchant_col is Some {
            seq!["merchant_col = ?"@]
        } else {
            Seq::<Seq<char>>::empty()
        });
        values = values + (if update.merchant_col is Some {
            seq![text_or_null(update.merchant_col->0)]
        } else {
            Seq::<SqlValueModel>::empty()
        });
        assert(texts(updates@) =~= names);
        assert(parameters@.map_values(|v: SqlValue| v@) =~= values);
    }
    if updates.len() == 0 {
        return Err("At least one field must be provided for update".to_owned());
    }
    updates.push("updated_at = CURRENT_TIMESTAMP".to_owned());
    parameters.push(SqlValue::Integer(update.id));
    proof {
        names = names + seq!["updated_at = CURRENT_TIMESTAMP"@];
        values = values + seq![SqlValueModel::Integer(update.id as int)];
        assert(texts(updates@) =~= names);
        assert(parameters@.map_values(|v: SqlValue| v@) =~= values);
    }
    let statement = Statement {
        sql: join3("UPDATE column_mappings SET ", join_all(&updates, ", ").as_str(), " WHERE id = ?"),
        parameters,
    };
    Ok(statement)
}

// Import

/// What stands against the import of a file, if anything: its size is looked at first,
/// then the number of its lines.
pub open spec fn import_limit_problem(content: Seq<u8>) -> Option<CsvImportError> {
    if content.len() > MAX_CSV_FILE_SIZE {
        Some(CsvImportError::FileTooLarge { size: content.len() as usize, max: MAX_CSV_FILE_SIZE })
    } else if line_count(content) > MAX_CSV_ROWS {
        Some(CsvImportError::TooManyRows { count: line_count(content) as usize, max: MAX_CSV_ROWS })
    } else {
        None
    }
}

/// Checks a file against the limits of an import.
pub fn check_import_limits(csv_content: &str) -> (result: Result<(), CsvImportError>)
    ensures
        match result {
            Ok(_) => import_limit_problem(csv_content.spec_bytes()) is None,
            Err(e) => import_limit_problem(csv_content.spec_bytes()) == Some(e),
        },
{
    // Validate file size
    let size = csv_content.as_bytes().len();
    if size > MAX_CSV_FILE_SIZE {
        return Err(CsvImportError::FileTooLarge { size, max: MAX_CSV_FILE_SIZE });
    }
    // Validate row count (approximate by counting newlines)
    let row_count = count_lines(csv_content);
    if row_count > MAX_CSV_ROWS {
        return Err(CsvImportError::TooManyRows { count: row_count, max: MAX_CSV_ROWS });
    }
    Ok(())
}

/// Admits an import at the time `now`, or refuses it. The rate limit is checked first,
/// before anything that costs more: an import that comes too soon is refused with the time
/// still to wait, and leaves the limiter as it is. An import that comes in time counts as
/// the limiter's last request, whether or not the file then passes the limits.
pub fn begin_import(limiter: &mut RateLimiter, now: u64, csv_content: &str) -> (result: Result<(), CsvImportError>)
    ensures
        !old(limiter).allows(now as int) ==> {
            &&& result == Err::<(), CsvImportError>(
                CsvImportError::RateLimitExceeded(old(limiter).remaining(now as int) as u128),
            )
            &&& *final(limiter) == *old(limiter)
        },
        old(limiter).allows(now as int) ==> {
            &&& final(limiter).last_request() == now
            &&& final(limiter).min_interval() == old(limiter).min_interval()
            &&& match result {
                Ok(_) => import_limit_problem(csv_content.spec_bytes()) is None,
                Err(e) => import_limit_problem(csv_content.spec_bytes()) == Some(e),
            }
        },
{
    match limiter.check_and_update(now) {
        Ok(_) => check_import_limits(csv_content),
        Err(wait) => Err(CsvImportError::RateLimitExceeded(wait)),
    }
}

/// What is said of an import that went through.
pub open spec fn import_message_text(stats: ImportStats) -> Seq<char> {
    "Imported "@ + decimal_text(stats.imported as int) + " of "@ + decimal_text(stats.total as int)
        + " transactions ("@ + decimal_text(stats.duplicates as int) + " duplicates skipped, "@ + decimal_text(
        stats.errors as int,
    ) + " errors)"@
}

/// The result of an import that went through.
pub fn import_result(stats: ImportStats) -> (result: ImportResult)
    ensures
        result.success,
        result.total == stats.total,
        result.imported == stats.imported,
        result.duplicates == stats.duplicates,
        result.errors == stats.errors,
        result.message@ == import_message_text(stats),
{
    let mut message = join3("Imported ", decimal(stats.imported as i128).as_str(), " of ");
    message.append(decimal(stats.total as i128).as_str());
    message.append(" transactions (");
    message.append(decimal(stats.duplicates as i128).as_str());
    message.append(" duplicates skipped, ");
    message.append(decimal(stats.errors as i128).as_str());
    message.append(" errors)");
    ImportResult {
        success: true,
        total: stats.total,
        imported: stats.imported,
        duplicates: stats.duplicates,
        errors: stats.errors,
        message,
    }
}

/// The names of the columns of a file, or what the user is told if they cannot be given:
/// that the file is too large, or that it could not be parsed.
pub fn get_csv_headers(csv_content: String) -> (result: Result<Vec<String>, String>)
    ensures
        match result {
            Ok(headers) => vstd::utf8::encode_utf8(csv_content@).len() <= MAX_CSV_FILE_SIZE && csv_header_row(
                csv_content@,
            ) == Ok::<Seq<Seq<char>>, Seq<char>>(texts(headers@)),
            Err(message) => if vstd::utf8::encode_utf8(csv_content@).len() > MAX_CSV_FILE_SIZE {
                message@ == (CsvImportError::FileTooLarge {
                    size: vstd::utf8::encode_utf8(csv_content@).len() as usize,
                    max: MAX_CSV_FILE_SIZE,
                }).user_text()
            } else {
                csv_header_row(csv_content@) is Err && message@
                    == "Failed to parse CSV file. Please check the file format."@
            },
        },
{
    // Validate file size
    let size = csv_content.as_str().as_bytes().len();
    if size > MAX_CSV_FILE_SIZE {
        return Err((CsvImportError::FileTooLarge { size, max: MAX_CSV_FILE_SIZE }).to_user_message());
    }
    match CsvParser::get_headers(csv_content.as_str()) {
        Ok(headers) => Ok(headers),
        Err(e) => Err(CsvImportError::ParseError(e.message()).to_user_message()),
    }
}

} // verus!
