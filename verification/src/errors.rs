// Error handling utilities for sanitizing error messages,
// and the domain-specific error types.
use vstd::prelude::*;
use vstd::string::StringExecFns;
use crate::constants::BYTES_PER_MB;
use crate::text::{
    amount_text, decimal, decimal_text, format_amount, format_money, format_seconds, join, join3,
    money_text, seconds_text,
};

verus! {

/// Sanitizes a database error: whatever the error says, the user is told only which
/// operation failed.
pub fn sanitize_db_error<E>(error: E, operation: &str) -> (message: String)
    ensures
        message@ == "Failed to "@ + operation@,
{
    // Return a safe, generic message to the user
    join("Failed to ", operation)
}

/// Sanitizes a general error: whatever the error and its context say, the user is told
/// only the message chosen for them.
pub fn sanitize_error<E>(error: E, context: &str, user_message: &str) -> (message: String)
    ensures
        message@ == user_message@,
{
    // Return a safe, generic message to the user
    user_message.to_owned()
}

// ===== Domain-specific error types =====

/// Errors related to debt operations. Money is in millionths of a currency unit, rates in
/// millionths of a percentage point.
#[derive(Debug)]
pub enum DebtError {
    InvalidBalance(i64),
    InvalidMinPayment(i64),
    InvalidInterestRate { min: i64, max: i64, actual: i64 },
    NotFound(i64),
    InsufficientFunds { monthly: i64, min_payments: i128 },
    NoDebts,
    PayoffExceeded(i32),
    InvalidStrategy(String),
    PaymentExceedsBalance { payment: i64, balance: i64 },
    PlanNotFound(i64),
    InvalidPaymentAmount(i64),
    Database(String),
}

impl DebtError {
    /// What the error says. Amounts of money are written in currency units, rates in
    /// percentage points.
    pub open spec fn text(self) -> Seq<char> {
        match self {
            DebtError::InvalidBalance(balance) => "Balance must be non-negative, got "@ + amount_text(balance as int),
            DebtError::InvalidMinPayment(payment) => "Minimum payment must be non-negative, got "@ + amount_text(
                payment as int,
            ),
            DebtError::InvalidInterestRate { min, max, actual } => "Interest rate must be between "@
                + amount_text(min as int) + " and "@ + amount_text(max as int) + ", got "@ + amount_text(
                actual as int,
            ),
            DebtError::NotFound(id) => "Debt not found with ID "@ + decimal_text(id as int),
            DebtError::InsufficientFunds { monthly, min_payments } => "Insufficient funds: monthly amount $"@
                + money_text(monthly as int) + " is less than total minimum payments $"@ + money_text(
                min_payments as int,
            ),
            DebtError::NoDebts => "No debts available for calculation"@,
            DebtError::PayoffExceeded(years) => "Payoff calculation exceeded "@ + decimal_text(years as int)
                + " years - check debt parameters"@,
            DebtError::InvalidStrategy(given) => "Invalid strategy '"@ + given@
                + "': must be 'avalanche' or 'snowball'"@,
            DebtError::PaymentExceedsBalance { payment, balance } => "Payment $"@ + money_text(payment as int)
                + " exceeds debt balance $"@ + money_text(balance as int),
            DebtError::PlanNotFound(id) => "Debt plan not found with ID "@ + decimal_text(id as int),
            DebtError::InvalidPaymentAmount(amount) => "Payment amount must be positive, got "@ + amount_text(
                amount as int,
            ),
            DebtError::Database(detail) => "Database error: "@ + detail@,
        }
    }

    /// What the user is told: the error's own text, but for a database error, whose detail
    /// is withheld.
    pub open spec fn user_text(self) -> Seq<char> {
        match self {
            DebtError::Database(_) => "Failed to complete debt operation"@,
            _ => self.text(),
        }
    }

    /// The text of the error.
    pub fn message(&self) -> (message: String)
        ensures
            message@ == self.text(),
    {
        match self {
            DebtError::InvalidBalance(balance) => join(
                "Balance must be non-negative, got ",
                format_amount(*balance as i128).as_str(),
            ),
            DebtError::InvalidMinPayment(payment) => join(
                "Minimum payment must be non-negative, got ",
                format_amount(*payment as i128).as_str(),
            ),
            DebtError::InvalidInterestRate { min, max, actual } => {
                let mut text = join("Interest rate must be between ", format_amount(*min as i128).as_str());
                text.append(" and ");
                text.append(format_amount(*max as i128).as_str());
                text.append(", got ");
                text.append(format_amount(*actual as i128).as_str());
                text
            },
            DebtError::NotFound(id) => join("Debt not found with ID ", decimal(*id as i128).as_str()),
            DebtError::InsufficientFunds { monthly, min_payments } => {
                let mut text = join("Insufficient funds: monthly amount $", format_money(*monthly as i128).as_str());
                text.append(" is less than total minimum payments $");
                text.append(format_money(*min_payments).as_str());
                text
            },
            DebtError::NoDebts => "No debts available for calculation".to_owned(),
            DebtError::PayoffExceeded(years) => join3(
                "Payoff calculation exceeded ",
                decimal(*years as i128).as_str(),
                " years - check debt parameters",
            ),
            DebtError::InvalidStrategy(given) => join3(
                "Invalid strategy '",
                given.as_str(),
                "': must be 'avalanche' or 'snowball'",
            ),
            DebtError::PaymentExceedsBalance { payment, balance } => {
                let mut text = join("Payment $", format_money(*payment as i128).as_str());
                text.append(" exceeds debt balance $");
                text.append(format_money(*balance as i128).as_str());
                text
            },
            DebtError::PlanNotFound(id) => join("Debt plan not found with ID ", decimal(*id as i128).as_str()),
            DebtError::InvalidPaymentAmount(amount) => join(
                "Payment amount must be positive, got ",
                format_amount(*amount as i128).as_str(),
            ),
            DebtError::Database(detail) => join("Database error: ", detail.as_str()),
        }
    }

    /// Convert to user-friendly error message (sanitized)
    pub fn to_user_message(&self) -> (message: String)
        ensures
            message@ == self.user_text(),
    {
        match self {
            // Database errors should be sanitized
            DebtError::Database(_) => "Failed to complete debt operation".to_owned(),
            // The other errors are safe to show to users
            _ => self.message(),
        }
    }
}

/// Errors related to transaction operations
#[derive(Debug)]
pub enum TransactionError {
    NotFound(i64),
    InvalidAmount(String),
    InvalidDate(String),
    CategoryNotFound(i64),
    AccountNotFound(i64),
    CategorizationError,
    ValidationError(String),
    Database(String),
}

impl TransactionError {
    /// What the error says.
    pub open spec fn text(self) -> Seq<char> {
        match self {
            TransactionError::NotFound(id) => "Transaction not found with ID "@ + decimal_text(id as int),
            TransactionError::InvalidAmount(amount) => "Invalid amount: "@ + amount@,
            TransactionError::InvalidDate(date) => "Invalid date format: "@ + date@,
            TransactionError::CategoryNotFound(id) => "Category not found with ID "@ + decimal_text(id as int),
            TransactionError::AccountNotFound(id) => "Account not found with ID "@ + decimal_text(id as int),
            TransactionError::CategorizationError => "Failed to categorize transaction"@,
            TransactionError::ValidationError(reason) => "Validation error: "@ + reason@,
            TransactionError::Database(detail) => "Database error: "@ + detail@,
        }
    }

    /// What the user is told: the error's own text, but for a database error, whose detail
    /// is withheld.
    pub open spec fn user_text(self) -> Seq<char> {
        match self {
            TransactionError::Database(_) => "Failed to complete transaction operation"@,
            _ => self.text(),
        }
    }

    /// The text of the error.
    pub fn message(&self) -> (message: String)
        ensures
            message@ == self.text(),
    {
        match self {
            TransactionError::NotFound(id) => join("Transaction not found with ID ", decimal(*id as i128).as_str()),
            TransactionError::InvalidAmount(amount) => join("Invalid amount: ", amount.as_str()),
            TransactionError::InvalidDate(date) => join("Invalid date format: ", date.as_str()),
            TransactionError::CategoryNotFound(id) => join(
                "Category not found with ID ",
                decimal(*id as i128).as_str(),
            ),
            TransactionError::AccountNotFound(id) => join(
                "Account not found with ID ",
                decimal(*id as i128).as_str(),
            ),
            TransactionError::CategorizationError => "Failed to categorize transaction".to_owned(),
            TransactionError::ValidationError(reason) => join("Validation error: ", reason.as_str()),
            TransactionError::Database(detail) => join("Database error: ", detail.as_str()),
        }
    }

    /// Convert to user-friendly error message (sanitized)
    pub fn to_user_message(&self) -> (message: String)
        ensures
            message@ == self.user_text(),
    {
        match self {
            // Database errors should be sanitized
            TransactionError::Database(_) => "Failed to complete transaction operation".to_owned(),
            // The other errors are safe to show
            _ => self.message(),
        }
    }
}

/// Errors related to CSV import operations
#[derive(Debug)]
pub enum CsvImportError {
    FileTooLarge { size: usize, max: usize },
    TooManyRows { count: usize, max: usize },
    /// The import has to wait for the time given, in nanoseconds.
    RateLimitExceeded(u128),
    InvalidFormat(String),
    MissingColumn(String),
    DuplicateMapping(String),
    ParseError(String),
    CategorizationError(String),
    DuplicateDetectionError(String),
    Database(String),
}

impl CsvImportError {
    /// What the error says.
    pub open spec fn text(self) -> Seq<char> {
        match self {
            CsvImportError::FileTooLarge { size, max } => "File too large: "@ + decimal_text(size as int)
                + " bytes (max "@ + decimal_text(max as int) + " bytes)"@,
            CsvImportError::TooManyRows { count, max } => "Too many rows: "@ + decimal_text(count as int)
                + " rows (max "@ + decimal_text(max as int) + " rows)"@,
            CsvImportError::RateLimitExceeded(wait) => "Rate limit exceeded. Please wait "@ + seconds_text(
                wait as nat,
            ) + " seconds before trying again"@,
            CsvImportError::InvalidFormat(detail) => "Invalid CSV format: "@ + detail@,
            CsvImportError::MissingColumn(column) => "Missing required column: "@ + column@,
            CsvImportError::DuplicateMapping(name) => "Column mapping '"@ + name@ + "' already exists"@,
            CsvImportError::ParseError(detail) => "Failed to parse CSV: "@ + detail@,
            CsvImportError::CategorizationError(detail) => "Categorization error: "@ + detail@,
            CsvImportError::DuplicateDetectionError(detail) => "Duplicate detection error: "@ + detail@,
            CsvImportError::Database(detail) => "Database error: "@ + detail@,
        }
    }

    /// What the user is told: limits and names, but nothing of what a parser, a service or
    /// the database reported.
    pub open spec fn user_text(self) -> Seq<char> {
        match self {
            CsvImportError::FileTooLarge { size: _, max } => "File too large. Maximum size is "@ + decimal_text(
                max as int / BYTES_PER_MB as int,
            ) + " MB."@,
            CsvImportError::TooManyRows { count, max } => "Too many rows. Maximum is "@ + decimal_text(max as int)
                + " rows, found approximately "@ + decimal_text(count as int) + "."@,
            CsvImportError::RateLimitExceeded(wait) => "Rate limit exceeded. Please wait "@ + seconds_text(
                wait as nat,
            ) + " seconds before trying again."@,
            CsvImportError::InvalidFormat(_) => "Failed to parse CSV file. Please check the file format."@,
            CsvImportError::MissingColumn(column) => "Missing required column: "@ + column@,
            CsvImportError::DuplicateMapping(name) => "A mapping with the name '"@ + name@ + "' already exists"@,
            CsvImportError::ParseError(_) => "Failed to parse CSV file. Please check the file format."@,
            CsvImportError::CategorizationError(_) => "Failed to categorize transactions"@,
            CsvImportError::DuplicateDetectionError(_) => "Failed to detect duplicates"@,
            CsvImportError::Database(_) => "Failed to import CSV file. Please check the file format."@,
        }
    }

    /// The text of the error.
    pub fn message(&self) -> (message: String)
        ensures
            message@ == self.text(),
    {
        match self {
            CsvImportError::FileTooLarge { size, max } => {
                let mut text = join3("File too large: ", decimal(*size as i128).as_str(), " bytes (max ");
                text.append(decimal(*max as i128).as_str());
                text.append(" bytes)");
                text
            },
            CsvImportError::TooManyRows { count, max } => {
                let mut text = join3("Too many rows: ", decimal(*count as i128).as_str(), " rows (max ");
                text.append(decimal(*max as i128).as_str());
                text.append(" rows)");
                text
            },
            CsvImportError::RateLimitExceeded(wait) => join3(
                "Rate limit exceeded. Please wait ",
                format_seconds(*wait).as_str(),
                " seconds before trying again",
            ),
            CsvImportError::InvalidFormat(detail) => join("Invalid CSV format: ", detail.as_str()),
            CsvImportError::MissingColumn(column) => join("Missing required column: ", column.as_str()),
            CsvImportError::DuplicateMapping(name) => join3("Column mapping '", name.as_str(), "' already exists"),
            CsvImportError::ParseError(detail) => join("Failed to parse CSV: ", detail.as_str()),
            CsvImportError::CategorizationError(detail) => join("Categorization error: ", detail.as_str()),
            CsvImportError::DuplicateDetectionError(detail) => join(
                "Duplicate detection error: ",
                detail.as_str(),
            ),
            CsvImportError::Database(detail) => join("Database error: ", detail.as_str()),
        }
    }

    /// Convert to user-friendly error message (sanitized)
    pub fn to_user_message(&self) -> (message: String)
        ensures
            message@ == self.user_text(),
    {
        match self {
            // These errors are safe and informative
            CsvImportError::FileTooLarge { size: _, max } => join3(
                "File too large. Maximum size is ",
                decimal((*max / BYTES_PER_MB) as i128).as_str(),
                " MB.",
            ),
            CsvImportError::TooManyRows { count, max } => {
                let mut text = join3(
                    "Too many rows. Maximum is ",
                    decimal(*max as i128).as_str(),
                    " rows, found approximately ",
                );
                text.append(decimal(*count as i128).as_str());
                text.append(".");
                text
            },
            CsvImportError::RateLimitExceeded(wait) => join3(
                "Rate limit exceeded. Please wait ",
                format_seconds(*wait).as_str(),
                " seconds before trying again.",
            ),
            CsvImportError::InvalidFormat(_) => "Failed to parse CSV file. Please check the file format.".to_owned(),
            CsvImportError::MissingColumn(column) => join("Missing required column: ", column.as_str()),
            CsvImportError::DuplicateMapping(name) => join3(
                "A mapping with the name '",
                name.as_str(),
                "' already exists",
            ),
            CsvImportError::ParseError(_) => "Failed to parse CSV file. Please check the file format.".to_owned(),
            // Internal errors should be sanitized
            CsvImportError::CategorizationError(_) => "Failed to categorize transactions".to_owned(),
            CsvImportError::DuplicateDetectionError(_) => "Failed to detect duplicates".to_owned(),
            CsvImportError::Database(_) => "Failed to import CSV file. Please check the file format.".to_owned(),
        }
    }
}

} // verus!
