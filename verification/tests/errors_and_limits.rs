use budget_balancer::errors::{sanitize_db_error, sanitize_error, CsvImportError, DebtError, TransactionError};
use budget_balancer::utils::rate_limiter::RateLimiter;

const MILLI: u64 = 1_000_000;

#[test]
fn test_sanitize_db_error() {
    let result = sanitize_db_error("connection refused", "load data");
    assert_eq!(result, "Failed to load data");
}

#[test]
fn test_sanitize_error() {
    let result = sanitize_error("file not found", "File operation error", "Unable to access file");
    assert_eq!(result, "Unable to access file");
}

#[test]
fn test_rate_limiter_allows_first_request() {
    let now = 5_000 * MILLI;
    let mut limiter = RateLimiter::new(1000, now); // 1 second
    assert!(limiter.check_and_update(now).is_ok());
}

#[test]
fn test_rate_limiter_blocks_rapid_requests() {
    let now = 5_000 * MILLI;
    let mut limiter = RateLimiter::new(100, now); // 100ms

    // First request should succeed
    assert!(limiter.check_and_update(now).is_ok());

    // Immediate second request should fail
    assert!(limiter.check_and_update(now).is_err());
}

#[test]
fn test_rate_limiter_allows_after_interval() {
    let now = 5_000 * MILLI;
    let mut limiter = RateLimiter::new(50, now); // 50ms

    // First request
    assert!(limiter.check_and_update(now).is_ok());

    // Wait for interval
    let later = now + 60 * MILLI;

    // Second request after interval should succeed
    assert!(limiter.check_and_update(later).is_ok());
}

#[test]
fn test_check_does_not_update_timestamp() {
    let now = 5_000 * MILLI;
    let mut limiter = RateLimiter::new(100, now); // 100ms

    // Update timestamp
    assert!(limiter.check_and_update(now).is_ok());

    // Check immediately (should fail)
    assert!(limiter.check(now).is_err());

    // Check again (should still fail, timestamp unchanged)
    assert!(limiter.check(now).is_err());
}

#[test]
fn rate_limiter_reports_the_time_still_to_wait() {
    let now = 5_000 * MILLI;
    let mut limiter = RateLimiter::new(100, now);
    assert!(limiter.check_and_update(now).is_ok());
    assert_eq!(limiter.check(now + 30 * MILLI), Err(70 * MILLI as u128));
    assert_eq!(limiter.check_and_update(now + 99 * MILLI), Err(MILLI as u128));
    assert_eq!(limiter.check_and_update(now + 100 * MILLI), Ok(()));
}

#[test]
fn rate_limiter_with_a_long_interval_blocks_the_first_request() {
    let now = 5_000 * MILLI;
    let limiter = RateLimiter::new(100_001, now);
    assert_eq!(limiter.check(now), Err(MILLI as u128));
}

#[test]
fn rate_limiter_reset_lets_the_next_request_pass() {
    let now = 5_000 * MILLI;
    let mut limiter = RateLimiter::new(2000, now);
    assert!(limiter.check_and_update(now).is_ok());
    assert!(limiter.check(now).is_err());
    limiter.reset(now);
    assert!(limiter.check(now).is_ok());
}

#[test]
fn rate_limiter_clock_before_last_request_counts_as_no_time() {
    let mut limiter = RateLimiter::new(10, 1_000 * MILLI);
    assert!(limiter.check_and_update(1_000 * MILLI).is_ok());
    assert_eq!(limiter.check(999 * MILLI), Err(10 * MILLI as u128));
}

#[test]
fn transaction_error_messages() {
    assert_eq!(TransactionError::NotFound(42).message(), "Transaction not found with ID 42");
    assert_eq!(TransactionError::NotFound(-7).to_user_message(), "Transaction not found with ID -7");
    assert_eq!(TransactionError::InvalidAmount("abc".to_string()).message(), "Invalid amount: abc");
    assert_eq!(TransactionError::InvalidDate("x".to_string()).message(), "Invalid date format: x");
    assert_eq!(TransactionError::CategoryNotFound(3).message(), "Category not found with ID 3");
    assert_eq!(TransactionError::AccountNotFound(0).message(), "Account not found with ID 0");
    assert_eq!(TransactionError::CategorizationError.to_user_message(), "Failed to categorize transaction");
    assert_eq!(TransactionError::ValidationError("bad".to_string()).to_user_message(), "Validation error: bad");
    assert_eq!(TransactionError::Database("secret".to_string()).message(), "Database error: secret");
    assert_eq!(
        TransactionError::Database("secret".to_string()).to_user_message(),
        "Failed to complete transaction operation"
    );
}

#[test]
fn debt_error_messages() {
    assert_eq!(DebtError::InvalidBalance(-5_000_000).message(), "Balance must be non-negative, got -5");
    assert_eq!(
        DebtError::InvalidMinPayment(-12_500_000).message(),
        "Minimum payment must be non-negative, got -12.5"
    );
    assert_eq!(
        (DebtError::InvalidInterestRate { min: 0, max: 100_000_000, actual: 150_000_000 }).message(),
        "Interest rate must be between 0 and 100, got 150"
    );
    assert_eq!(DebtError::NotFound(99999).message(), "Debt not found with ID 99999");
    assert_eq!(
        (DebtError::InsufficientFunds { monthly: 25_000_000, min_payments: 50_000_000 }).message(),
        "Insufficient funds: monthly amount $25.00 is less than total minimum payments $50.00"
    );
    assert_eq!(DebtError::NoDebts.message(), "No debts available for calculation");
    assert_eq!(
        DebtError::PayoffExceeded(100).message(),
        "Payoff calculation exceeded 100 years - check debt parameters"
    );
    assert_eq!(
        DebtError::InvalidStrategy("x".to_string()).message(),
        "Invalid strategy 'x': must be 'avalanche' or 'snowball'"
    );
    assert_eq!(
        (DebtError::PaymentExceedsBalance { payment: 2_000_000_000, balance: 1_000_004_999 }).message(),
        "Payment $2000.00 exceeds debt balance $1000.00"
    );
    assert_eq!(DebtError::PlanNotFound(7).message(), "Debt plan not found with ID 7");
    assert_eq!(DebtError::InvalidPaymentAmount(0).message(), "Payment amount must be positive, got 0");
    assert_eq!(DebtError::Database("no such table".to_string()).message(), "Database error: no such table");
    assert_eq!(
        DebtError::Database("no such table".to_string()).to_user_message(),
        "Failed to complete debt operation"
    );
    assert_eq!(DebtError::NoDebts.to_user_message(), "No debts available for calculation");
    assert_eq!(DebtError::NotFound(-1).to_user_message(), "Debt not found with ID -1");
}

#[test]
fn csv_import_error_messages() {
    let too_large = CsvImportError::FileTooLarge { size: 11_000_000, max: 10_485_760 };
    assert_eq!(too_large.message(), "File too large: 11000000 bytes (max 10485760 bytes)");
    assert_eq!(too_large.to_user_message(), "File too large. Maximum size is 10 MB.");
    let too_many = CsvImportError::TooManyRows { count: 10_001, max: 10_000 };
    assert_eq!(too_many.message(), "Too many rows: 10001 rows (max 10000 rows)");
    assert_eq!(too_many.to_user_message(), "Too many rows. Maximum is 10000 rows, found approximately 10001.");
    let limited = CsvImportError::RateLimitExceeded(1_449_000_000);
    assert_eq!(limited.message(), "Rate limit exceeded. Please wait 1.4 seconds before trying again");
    assert_eq!(limited.to_user_message(), "Rate limit exceeded. Please wait 1.4 seconds before trying again.");
    assert_eq!(CsvImportError::InvalidFormat("x".to_string()).message(), "Invalid CSV format: x");
    assert_eq!(
        CsvImportError::InvalidFormat("x".to_string()).to_user_message(),
        "Failed to parse CSV file. Please check the file format."
    );
    assert_eq!(CsvImportError::MissingColumn("Date".to_string()).message(), "Missing required column: Date");
    assert_eq!(CsvImportError::MissingColumn("Date".to_string()).to_user_message(), "Missing required column: Date");
    assert_eq!(CsvImportError::DuplicateMapping("Bank".to_string()).message(), "Column mapping 'Bank' already exists");
    assert_eq!(
        CsvImportError::DuplicateMapping("Bank".to_string()).to_user_message(),
        "A mapping with the name 'Bank' already exists"
    );
    assert_eq!(CsvImportError::ParseError("bad".to_string()).message(), "Failed to parse CSV: bad");
    assert_eq!(
        CsvImportError::ParseError("bad".to_string()).to_user_message(),
        "Failed to parse CSV file. Please check the file format."
    );
    assert_eq!(CsvImportError::CategorizationError("db".to_string()).message(), "Categorization error: db");
    assert_eq!(
        CsvImportError::CategorizationError("db".to_string()).to_user_message(),
        "Failed to categorize transactions"
    );
    assert_eq!(
        CsvImportError::DuplicateDetectionError("db".to_string()).message(),
        "Duplicate detection error: db"
    );
    assert_eq!(
        CsvImportError::DuplicateDetectionError("db".to_string()).to_user_message(),
        "Failed to detect duplicates"
    );
    assert_eq!(CsvImportError::Database("secret".to_string()).message(), "Database error: secret");
    assert_eq!(
        CsvImportError::Database("secret".to_string()).to_user_message(),
        "Failed to import CSV file. Please check the file format."
    );
}

#[test]
fn sanitized_messages_do_not_show_the_error() {
    assert_eq!(sanitize_db_error(42, ""), "Failed to ");
    assert_eq!(sanitize_error(vec![1, 2, 3], "context", ""), "");
    assert!(!sanitize_db_error("password=hunter2", "connect").contains("hunter2"));
    assert!(!sanitize_error("password=hunter2", "login for admin", "Could not log in").contains("admin"));
}
