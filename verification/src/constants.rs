use vstd::prelude::*;

verus! {

// ===== Fixed-point units =====
//
// Money is counted in millionths of a currency unit, and interest rates in
// millionths of a percentage point. All arithmetic on them is exact integer
// arithmetic; divisions round toward zero.

/// Millionths in one currency unit.
pub const MICROS_PER_UNIT: i64 = 1_000_000;

/// Millionths of a percentage point in one percentage point.
pub const MICROS_PER_PERCENT: i64 = 1_000_000;

/// A balance strictly below this amount (one hundredth of a currency unit) counts as paid off.
pub const ZERO_BALANCE_THRESHOLD: i64 = 10_000;

// ===== Database Constants =====

/// Default category ID for uncategorized transactions
pub const DEFAULT_CATEGORY_ID: i64 = 10;

// ===== CSV Import Limits =====

/// Bytes per megabyte constant for file size calculations
pub const BYTES_PER_MB: usize = 1_048_576;

/// Maximum CSV file size in bytes (10 MB)
pub const MAX_CSV_FILE_SIZE: usize = 10_485_760;

/// Maximum number of rows allowed in a CSV import
pub const MAX_CSV_ROWS: usize = 10_000;

/// Minimum interval between CSV imports in milliseconds (2 seconds)
pub const MIN_CSV_IMPORT_INTERVAL_MS: u64 = 2000;

// ===== Validation Limits =====

/// Minimum valid interest rate, in millionths of a percentage point
pub const MIN_INTEREST_RATE: i64 = 0;

/// Maximum valid interest rate (100%), in millionths of a percentage point
pub const MAX_INTEREST_RATE: i64 = 100_000_000;

/// Maximum reasonable transaction amount (1 billion currency units), in millionths
pub const MAX_TRANSACTION_AMOUNT: i64 = 1_000_000_000_000_000;

/// Maximum description length
pub const MAX_DESCRIPTION_LENGTH: usize = 500;

/// Maximum merchant name length
pub const MAX_MERCHANT_LENGTH: usize = 200;

// ===== Pagination Defaults =====

/// Default number of items per page
pub const DEFAULT_PAGE_SIZE: i64 = 50;

/// Maximum number of items per page
pub const MAX_PAGE_SIZE: i64 = 100;

/// Default offset for pagination
pub const DEFAULT_OFFSET: i64 = 0;

// ===== Database Connection Pool =====

/// Maximum number of concurrent database connections
pub const MAX_DB_CONNECTIONS: u32 = 5;

// ===== Financial Calculation Constants =====

/// Number of months in a year (for interest rate calculations)
pub const MONTHS_PER_YEAR: i64 = 12;

/// Divisor to convert percentage to decimal (e.g., 18% -> 0.18)
pub const PERCENT_TO_DECIMAL_DIVISOR: i64 = 100;

/// Divisor that turns `balance * annual rate` into one month's interest:
/// percent to fraction, year to month, and the rate's own scale.
pub const MONTHLY_RATE_DIVISOR: i64 = 1_200_000_000;

/// Maximum years allowed for debt payoff calculations
pub const MAX_PAYOFF_YEARS: i32 = 100;

/// Maximum number of simulated months in a payoff plan
pub const MAX_PAYOFF_MONTHS: i32 = 1200;

// ===== Spending Tracker Thresholds =====

/// Percentage threshold for "under budget" status, in millionths of a percentage point
pub const SPENDING_UNDER_THRESHOLD_PERCENT: i64 = 80_000_000;

/// Percentage threshold for "on track" status (at or below target), in millionths of a percentage point
pub const SPENDING_ON_TRACK_THRESHOLD_PERCENT: i64 = 100_000_000;

} // verus!
