use budget_balancer::commands::csv_commands::{
    begin_import, check_import_limits, get_csv_headers, get_rate_limit_interval, import_result,
};
use budget_balancer::errors::CsvImportError;
use budget_balancer::models::category_rule::CategoryRule;
use budget_balancer::models::transaction::NewTransaction;
use budget_balancer::services::amount_parser::parse_amount;
use budget_balancer::services::categorizer::{Categorizer, CategorizerError};
use budget_balancer::services::csv_parser::{ColumnMapping, CsvError, CsvParser};
use budget_balancer::services::duplicate_detector::{DuplicateDetector, DuplicateError};
use budget_balancer::services::transaction_importer::{ImportError, ImportEvent, ImportStats, TransactionImporter};
use budget_balancer::utils::rate_limiter::RateLimiter;

fn mapping() -> ColumnMapping {
    ColumnMapping {
        date: "Date".to_string(),
        amount: "Amount".to_string(),
        description: "Description".to_string(),
        merchant: Some("Merchant".to_string()),
    }
}

fn rule(id: i64, pattern: &str, category_id: i64) -> CategoryRule {
    CategoryRule {
        id,
        pattern: pattern.to_string(),
        category_id,
        priority: 10,
        created_at: "2025-01-01".to_string(),
    }
}

#[test]
fn amounts_are_read_as_decimal_numbers() {
    assert_eq!(parse_amount("0"), Some(0));
    assert_eq!(parse_amount("12"), Some(12_000_000));
    assert_eq!(parse_amount("-45.50"), Some(-45_500_000));
    assert_eq!(parse_amount("+45.5"), Some(45_500_000));
    assert_eq!(parse_amount("$1,234.56"), Some(1_234_560_000));
    assert_eq!(parse_amount("-$1,234.56"), Some(-1_234_560_000));
    assert_eq!(parse_amount("$-7"), Some(-7_000_000));
    assert_eq!(parse_amount("5."), Some(5_000_000));
    assert_eq!(parse_amount(".5"), Some(500_000));
    assert_eq!(parse_amount("0.000001"), Some(1));
    assert_eq!(parse_amount("0.0000019"), Some(1));
    assert_eq!(parse_amount("007.10"), Some(7_100_000));
    assert_eq!(parse_amount("1,2,3"), Some(123_000_000));
}

#[test]
fn what_is_no_decimal_number_is_no_amount() {
    for text in ["", ".", "-", "+", "$", ",", "abc", "1.2.3", "1e3", "--1", "+-1", "1-", " 1", "1 ", "NaN", "inf", "1_000", "٣"] {
        assert_eq!(parse_amount(text), None, "{:?}", text);
    }
}

#[test]
fn amounts_beyond_the_range_are_none() {
    assert_eq!(parse_amount("9223372036854.775807"), Some(i64::MAX));
    assert_eq!(parse_amount("9223372036854.775808"), None);
    assert_eq!(parse_amount("-9223372036854.775808"), Some(i64::MIN));
    assert_eq!(parse_amount("-9223372036854.775809"), None);
    assert_eq!(parse_amount("9223372036855"), None);
    assert_eq!(parse_amount("99999999999999999999999999999999999999999999999999"), None);
    assert_eq!(parse_amount("0.99999999999999999999999999999999999999999999999999"), Some(999_999));
}

#[test]
fn dates_are_normalized_from_the_known_forms() {
    for text in [
        "2025-06-15",
        "06/15/2025",
        "2025/06/15",
        "15/06/2025",
        "15-06-2025",
        "Jun 15, 2025",
        "June 15, 2025",
        "  2025-06-15 ",
        "2025-6-15",
    ] {
        assert_eq!(CsvParser::normalize_date(text).unwrap(), "2025-06-15", "{:?}", text);
    }
    // month first where both readings are possible
    assert_eq!(CsvParser::normalize_date("03/04/2025").unwrap(), "2025-03-04");
    // the form with the full year is tried before the form with the year of the century
    assert_eq!(CsvParser::normalize_date("06/15/25").unwrap(), "0025-06-15");
}

#[test]
fn dates_that_cannot_be_read_are_refused() {
    for text in ["", "tomorrow", "2025-13-01", "2025-02-30", "15.06.2025"] {
        match CsvParser::normalize_date(text) {
            Err(CsvError::ParseError(message)) => assert_eq!(
                message,
                format!("Unable to parse date: {}. Supported formats: YYYY-MM-DD, MM/DD/YYYY, etc.", text)
            ),
            other => panic!("unexpected result for {:?}: {:?}", text, other),
        }
    }
}

#[test]
fn headers_are_the_first_row() {
    assert_eq!(
        CsvParser::get_headers("Date,Amount,Description\n2025-01-01,1,x\n").unwrap(),
        vec!["Date", "Amount", "Description"]
    );
    assert_eq!(CsvParser::get_headers("\"a,b\",c").unwrap(), vec!["a,b", "c"]);
    assert!(CsvParser::get_headers("").unwrap().is_empty());
    assert_eq!(get_csv_headers("x,y\n1,2\n".to_string()).unwrap(), vec!["x", "y"]);
}

#[test]
fn transactions_are_read_with_a_mapping() {
    let content = "Date,Amount,Description,Merchant\n\
                   2025-01-15,-45.50,Coffee,Starbucks\n\
                   01/16/2025,\"$1,200.00\",Salary,\n\
                   \"Jan 17, 2025\",-3,\"Bus, line 5\",Metro\n";
    let transactions = CsvParser::parse(content, &mapping()).unwrap();
    assert_eq!(transactions.len(), 3);
    assert_eq!(transactions[0].date, "2025-01-15");
    assert_eq!(transactions[0].amount, -45_500_000);
    assert_eq!(transactions[0].description, "Coffee");
    assert_eq!(transactions[0].merchant.as_deref(), Some("Starbucks"));
    assert_eq!(transactions[1].date, "2025-01-16");
    assert_eq!(transactions[1].amount, 1_200_000_000);
    assert_eq!(transactions[1].merchant.as_deref(), Some(""));
    assert_eq!(transactions[2].date, "2025-01-17");
    assert_eq!(transactions[2].description, "Bus, line 5");
}

#[test]
fn columns_may_stand_in_any_order_and_the_merchant_may_be_missing() {
    let content = "Note,Amount,Extra,Date\nRent,-900,x,2025-02-01\n";
    let by_note = ColumnMapping {
        date: "Date".to_string(),
        amount: "Amount".to_string(),
        description: "Note".to_string(),
        merchant: Some("Merchant".to_string()),
    };
    let transactions = CsvParser::parse(content, &by_note).unwrap();
    assert_eq!(transactions.len(), 1);
    assert_eq!(transactions[0].description, "Rent");
    assert_eq!(transactions[0].amount, -900_000_000);
    assert_eq!(transactions[0].merchant, None);
    let without = ColumnMapping { merchant: None, ..by_note };
    assert_eq!(CsvParser::parse(content, &without).unwrap()[0].merchant, None);
    assert!(CsvParser::parse("Date,Amount,Note\n", &without).unwrap().is_empty());
}

#[test]
fn of_columns_with_the_same_name_the_last_counts() {
    let content = "Date,Amount,Description,Amount\n2025-02-01,1,x,2\n";
    let transactions = CsvParser::parse(content, &mapping()).unwrap();
    assert_eq!(transactions[0].amount, 2_000_000);
}

#[test]
fn missing_columns_are_named() {
    let expect_missing = |content: &str, name: &str| match CsvParser::parse(content, &mapping()) {
        Err(CsvError::MissingColumn(column)) => assert_eq!(column, name),
        other => panic!("unexpected result: {:?}", other),
    };
    expect_missing("Amount,Description\n1,x\n", "Date");
    expect_missing("Date,Description\n2025-01-01,x\n", "Amount");
    expect_missing("Date,Amount\n2025-01-01,1\n", "Description");
    expect_missing("", "Date");
    expect_missing("date,amount,description\n", "Date");
}

#[test]
fn first_bad_row_ends_the_reading() {
    let bad_date = "Date,Amount,Description\n2025-01-01,1,a\nnever,2,b\n2025-01-03,x,c\n";
    match CsvParser::parse(bad_date, &mapping()) {
        Err(CsvError::ParseError(message)) => assert!(message.starts_with("Unable to parse date: never.")),
        other => panic!("unexpected result: {:?}", other),
    }
    let bad_amount = "Date,Amount,Description\n2025-01-01,1,a\n2025-01-03,1e3,c\nnever,2,b\n";
    match CsvParser::parse(bad_amount, &mapping()) {
        Err(e @ CsvError::ParseError(_)) => assert_eq!(e.message(), "Parse Error: Invalid amount: 1e3"),
        other => panic!("unexpected result: {:?}", other),
    }
    // a row with too few fields is refused by the reader
    let short = "Date,Amount,Description\n2025-01-01,1\n";
    match CsvParser::parse(short, &mapping()) {
        Err(CsvError::ParseError(message)) => assert!(message.contains("found record with 2 fields")),
        other => panic!("unexpected result: {:?}", other),
    }
}

#[test]
fn csv_error_messages() {
    assert_eq!(CsvError::IoError("disk".to_string()).message(), "IO Error: disk");
    assert_eq!(CsvError::ParseError("row".to_string()).message(), "Parse Error: row");
    assert_eq!(CsvError::MissingColumn("Date".to_string()).message(), "Missing column: Date");
    assert_eq!(CategorizerError::DatabaseError("x".to_string()).message(), "Database Error: x");
    assert_eq!(DuplicateError::DatabaseError("x".to_string()).message(), "Database Error: x");
    assert_eq!(ImportError::CsvError("x".to_string()).message(), "CSV Error: x");
    assert_eq!(ImportError::DuplicateError("x".to_string()).message(), "Duplicate Detection Error: x");
    assert_eq!(ImportError::CategorizerError("x".to_string()).message(), "Categorization Error: x");
    assert_eq!(ImportError::ValidationError("x".to_string()).message(), "Validation Error: x");
    assert_eq!(ImportError::DatabaseError("x".to_string()).message(), "Database Error: x");
}

#[test]
fn first_matching_rule_gives_the_category() {
    let rules = vec![rule(1, "starbucks", 2), rule(2, "coffee", 5), rule(3, "STAR", 7)];
    assert_eq!(Categorizer::categorize(&rules, Some("STARBUCKS #123"), "morning coffee"), Some(2));
    assert_eq!(Categorizer::categorize(&rules, Some("Star Market"), "x"), Some(7));
    // the description counts only where there is no merchant
    assert_eq!(Categorizer::categorize(&rules, None, "Morning Coffee"), Some(5));
    assert_eq!(Categorizer::categorize(&rules, Some("Shell"), "coffee at the station"), None);
    assert_eq!(Categorizer::categorize(&rules, None, "rent"), None);
    assert_eq!(Categorizer::categorize(&Vec::new(), Some("Starbucks"), "coffee"), None);
    // an empty pattern occurs in every text
    assert_eq!(Categorizer::categorize(&vec![rule(1, "", 9)], None, ""), Some(9));
    // letter case beyond ASCII
    assert_eq!(Categorizer::categorize(&vec![rule(1, "CAFÉ", 4)], Some("café de paris"), ""), Some(4));
}

#[test]
fn hashes_tell_transactions_apart() {
    assert_eq!(
        NewTransaction::calculate_hash("2025-01-15", -45_500_000, "Coffee Shop"),
        "e085e1d92951a3ea946332765be90449547225728beae3bbc45ce87b250103ba"
    );
    assert_eq!(
        NewTransaction::calculate_hash("2025-01-15", 100_000_000, "Salary"),
        "651564bb4ef222f8251ece7702e54ebc9ba701723dc3c153b179653012f14323"
    );
    assert_eq!(
        DuplicateDetector::lookup_hash("2025-01-15", 100_000_000, "Salary"),
        NewTransaction::calculate_hash("2025-01-15", 100_000_000, "Salary")
    );
    assert_ne!(
        NewTransaction::calculate_hash("2025-01-15", 100_000_000, "Salary"),
        NewTransaction::calculate_hash("2025-01-15", 100_000_001, "Salary")
    );
    assert_eq!(NewTransaction::calculate_hash("", 0, "").len(), 64);
}

#[test]
fn duplicates_are_told_by_the_count() {
    assert!(!DuplicateDetector::is_duplicate(None));
    assert!(!DuplicateDetector::is_duplicate(Some(0)));
    assert!(!DuplicateDetector::is_duplicate(Some(-1)));
    assert!(DuplicateDetector::is_duplicate(Some(1)));
    assert!(DuplicateDetector::is_duplicate(Some(i64::MAX)));
}

#[test]
fn amounts_beyond_the_largest_allowed_are_refused() {
    assert!(TransactionImporter::validate_amount(0).is_ok());
    assert!(TransactionImporter::validate_amount(1_000_000_000_000_000).is_ok());
    assert!(TransactionImporter::validate_amount(-1_000_000_000_000_000).is_ok());
    match TransactionImporter::validate_amount(-1_000_000_000_010_000) {
        Err(e @ ImportError::ValidationError(_)) => assert_eq!(
            e.message(),
            "Validation Error: Transaction amount $1000000000.01 exceeds maximum allowed amount of $1000000000.00"
        ),
        other => panic!("unexpected result: {:?}", other),
    }
    assert!(TransactionImporter::validate_amount(i64::MIN).is_err());
    assert!(TransactionImporter::validate_amount(i64::MAX).is_err());
    assert_eq!(TransactionImporter::category_or_default(None), 10);
    assert_eq!(TransactionImporter::category_or_default(Some(3)), 3);
}

#[test]
fn import_counts_what_becomes_of_each_transaction() {
    let mut stats = ImportStats::new(4);
    assert_eq!(stats, ImportStats { total: 4, imported: 0, duplicates: 0, errors: 0 });
    stats.record(ImportEvent::Imported);
    stats.record(ImportEvent::Duplicate);
    stats.record(ImportEvent::Imported);
    stats.record(ImportEvent::Failed);
    assert_eq!(stats, ImportStats { total: 4, imported: 2, duplicates: 1, errors: 1 });
    let result = import_result(stats);
    assert!(result.success);
    assert_eq!((result.total, result.imported, result.duplicates, result.errors), (4, 2, 1, 1));
    assert_eq!(result.message, "Imported 2 of 4 transactions (1 duplicates skipped, 1 errors)");
}

#[test]
fn files_are_held_to_the_limits() {
    assert!(check_import_limits("").is_ok());
    assert!(check_import_limits("Date,Amount\n").is_ok());
    let rows = "x\n".repeat(10_000);
    assert!(check_import_limits(&rows).is_ok());
    let rows = "x\n".repeat(10_001);
    match check_import_limits(&rows) {
        Err(CsvImportError::TooManyRows { count, max }) => assert_eq!((count, max), (10_001, 10_000)),
        other => panic!("unexpected result: {:?}", other),
    }
    let rows = format!("{}x", "x\n".repeat(10_000));
    assert!(matches!(check_import_limits(&rows), Err(CsvImportError::TooManyRows { count: 10_001, .. })));
    let large = "x".repeat(10 * 1024 * 1024);
    assert!(check_import_limits(&large).is_ok());
    let larger = "x".repeat(10 * 1024 * 1024 + 1);
    match check_import_limits(&larger) {
        Err(CsvImportError::FileTooLarge { size, max }) => assert_eq!((size, max), (10_485_761, 10_485_760)),
        other => panic!("unexpected result: {:?}", other),
    }
    // the size is looked at before the rows
    let both = "\n".repeat(10 * 1024 * 1024 + 1);
    assert!(matches!(check_import_limits(&both), Err(CsvImportError::FileTooLarge { .. })));
    assert_eq!(get_csv_headers(larger).unwrap_err(), "File too large. Maximum size is 10 MB.");
}

#[test]
fn imports_are_rate_limited_before_anything_else() {
    let second = 1_000_000_000u64;
    let mut limiter = RateLimiter::new(2000, 10 * second);
    assert!(begin_import(&mut limiter, 10 * second, "Date\n").is_ok());
    match begin_import(&mut limiter, 10 * second + second / 2, "Date\n") {
        Err(e @ CsvImportError::RateLimitExceeded(1_500_000_000)) => assert_eq!(
            e.to_user_message(),
            "Rate limit exceeded. Please wait 1.5 seconds before trying again."
        ),
        other => panic!("unexpected result: {:?}", other),
    }
    // a refused import does not count as a request
    assert!(begin_import(&mut limiter, 12 * second, "Date\n").is_ok());
    // an import in time counts even if the file is refused
    let rows = "x\n".repeat(10_001);
    assert!(matches!(begin_import(&mut limiter, 14 * second, &rows), Err(CsvImportError::TooManyRows { .. })));
    assert!(matches!(
        begin_import(&mut limiter, 15 * second, "Date\n"),
        Err(CsvImportError::RateLimitExceeded(1_000_000_000))
    ));
}

#[test]
fn rate_limit_interval_is_configured_or_two_seconds() {
    assert_eq!(get_rate_limit_interval(None), 2000);
    assert_eq!(get_rate_limit_interval(Some("50".to_string())), 50);
    assert_eq!(get_rate_limit_interval(Some("0".to_string())), 0);
    assert_eq!(get_rate_limit_interval(Some("18446744073709551615".to_string())), u64::MAX);
    assert_eq!(get_rate_limit_interval(Some("18446744073709551616".to_string())), 2000);
    assert_eq!(get_rate_limit_interval(Some("fast".to_string())), 2000);
    assert_eq!(get_rate_limit_interval(Some("-1".to_string())), 2000);
    assert_eq!(get_rate_limit_interval(Some("".to_string())), 2000);
    assert_eq!(get_rate_limit_interval(Some(" 5".to_string())), 2000);
}
