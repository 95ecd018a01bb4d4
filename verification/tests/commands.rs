use budget_balancer::commands::account_commands::{
    account_not_found, create_account_statement, list_accounts_statement, update_account_statement,
};
use budget_balancer::commands::category_commands::{
    category_not_found, check_category_deletable, create_category_error, create_category_statement,
    list_categories_query, update_category_statement,
};
use budget_balancer::commands::category_rule_commands::{
    category_rule_not_found, create_category_rule_statement, list_category_rules_statement,
    update_category_rule_statement,
};
use budget_balancer::commands::csv_commands::{
    column_mapping_id_not_found, column_mapping_not_found, get_column_mapping_statement,
    list_column_mappings_statement, save_column_mapping_statement, update_column_mapping_statement,
};
use budget_balancer::commands::debt_commands::{
    get_debt_progress_impl, insert_debt_statement, record_debt_payment_impl, update_debt_statement,
    validate_debt_update, validate_new_debt, validate_payment_amount,
};
use budget_balancer::commands::transaction_commands::{
    bulk_delete_result, bulk_update_result, category_names_statement, count_transactions_statement,
    default_filter, export_csv, export_result, list_transactions_statement, search_filter,
    validate_bulk_ids, BulkAction, ExportFormat, TransactionFilter, TransactionFilterBuilder,
};
use budget_balancer::db::statement::{SqlValue, Statement};
use budget_balancer::errors::{DebtError, TransactionError};
use budget_balancer::models::account::{AccountType, NewAccount, UpdateAccount};
use budget_balancer::models::category::{CategoryFilter, CategoryType, NewCategory, UpdateCategory};
use budget_balancer::models::category_rule::{CategoryRuleFilter, NewCategoryRule, UpdateCategoryRule};
use budget_balancer::models::column_mapping::{GetColumnMappingQuery, NewColumnMapping, UpdateColumnMapping};
use budget_balancer::models::debt::{Debt, DebtPayment, NewDebt};
use budget_balancer::models::transaction::Transaction;

fn bound(statement: &Statement) -> Vec<String> {
    statement
        .parameters
        .iter()
        .map(|value| match value {
            SqlValue::Integer(n) => format!("int {}", n),
            SqlValue::Decimal(n) => format!("dec {}", n),
            SqlValue::Text(t) => format!("text {}", t),
            SqlValue::Null => "null".to_string(),
        })
        .collect()
}

fn new_debt(balance: i64, interest_rate: i64, min_payment: i64) -> NewDebt {
    NewDebt { name: "Card".to_string(), balance, interest_rate, min_payment }
}

#[test]
fn new_debts_are_checked() {
    assert!(validate_new_debt(&new_debt(0, 0, 0)).is_ok());
    assert!(validate_new_debt(&new_debt(1_000_000_000, 100_000_000, 50_000_000)).is_ok());
    assert!(matches!(validate_new_debt(&new_debt(-1, 0, 0)), Err(DebtError::InvalidBalance(-1))));
    assert!(matches!(validate_new_debt(&new_debt(0, 0, -1)), Err(DebtError::InvalidMinPayment(-1))));
    assert!(matches!(
        validate_new_debt(&new_debt(0, 150_000_000, 0)),
        Err(DebtError::InvalidInterestRate { min: 0, max: 100_000_000, actual: 150_000_000 })
    ));
    assert!(matches!(validate_new_debt(&new_debt(0, -1, 0)), Err(DebtError::InvalidInterestRate { actual: -1, .. })));
    // the balance is looked at first, then the minimum payment, then the rate
    assert!(matches!(validate_new_debt(&new_debt(-1, -1, -1)), Err(DebtError::InvalidBalance(_))));
    assert!(matches!(validate_new_debt(&new_debt(0, -1, -1)), Err(DebtError::InvalidMinPayment(_))));
    assert_eq!(
        validate_new_debt(&new_debt(0, 150_000_000, 0)).unwrap_err().message(),
        "Interest rate must be between 0 and 100, got 150"
    );
    assert!(validate_new_debt(&new_debt(-1_000_000_000, 0, 0)).unwrap_err().message().contains("Balance must be non-negative"));
}

#[test]
fn debt_updates_are_checked() {
    assert!(validate_debt_update(None, None, None).is_ok());
    assert!(validate_debt_update(Some(0), Some(0), Some(0)).is_ok());
    assert!(validate_debt_update(Some(2_500_000_000), None, None).is_ok());
    assert!(matches!(validate_debt_update(Some(-1), None, None), Err(DebtError::InvalidBalance(-1))));
    assert!(matches!(
        validate_debt_update(None, Some(100_000_001), None),
        Err(DebtError::InvalidInterestRate { .. })
    ));
    assert!(matches!(validate_debt_update(None, None, Some(-5)), Err(DebtError::InvalidMinPayment(-5))));
    // the balance is looked at first, then the rate, then the minimum payment
    assert!(matches!(validate_debt_update(Some(-1), Some(-1), Some(-1)), Err(DebtError::InvalidBalance(_))));
    assert!(matches!(validate_debt_update(None, Some(-1), Some(-1)), Err(DebtError::InvalidInterestRate { .. })));
}

#[test]
fn debt_statements_bind_what_is_given() {
    let insert = insert_debt_statement(&new_debt(1_000_000_000, 18_000_000, 50_000_000));
    assert_eq!(
        insert.sql,
        "INSERT INTO debts (name, balance, original_balance, interest_rate, min_payment) VALUES (?, ?, ?, ?, ?)"
    );
    assert_eq!(bound(&insert), vec!["text Card", "dec 1000000000", "dec 1000000000", "dec 18000000", "dec 50000000"]);

    let all = update_debt_statement(7, Some(1), Some(2), Some(3));
    assert_eq!(
        all.sql,
        "UPDATE debts SET balance = ?, interest_rate = ?, min_payment = ?, updated_at = CURRENT_TIMESTAMP WHERE id = ?"
    );
    assert_eq!(bound(&all), vec!["dec 1", "dec 2", "dec 3", "int 7"]);
    let one = update_debt_statement(7, None, Some(2), None);
    assert_eq!(one.sql, "UPDATE debts SET interest_rate = ?, updated_at = CURRENT_TIMESTAMP WHERE id = ?");
    assert_eq!(bound(&one), vec!["dec 2", "int 7"]);
    let none = update_debt_statement(7, None, None, None);
    assert_eq!(none.sql, "UPDATE debts SET updated_at = CURRENT_TIMESTAMP WHERE id = ?");
    assert_eq!(bound(&none), vec!["int 7"]);
}

#[test]
fn payments_are_checked_against_the_balance() {
    assert!(validate_payment_amount(1).is_ok());
    assert!(matches!(validate_payment_amount(0), Err(DebtError::InvalidPaymentAmount(0))));
    assert!(matches!(validate_payment_amount(-100_000_000), Err(DebtError::InvalidPaymentAmount(-100_000_000))));
    assert_eq!(record_debt_payment_impl(1_000_000_000, 100_000_000).unwrap(), 900_000_000);
    assert_eq!(record_debt_payment_impl(1_000_000_000, 1_000_000_000).unwrap(), 0);
    match record_debt_payment_impl(1_000_000_000, 2_000_000_000) {
        Err(e @ DebtError::PaymentExceedsBalance { payment: 2_000_000_000, balance: 1_000_000_000 }) => {
            assert_eq!(e.message(), "Payment $2000.00 exceeds debt balance $1000.00");
            assert!(e.to_user_message().contains("exceeds"));
        }
        other => panic!("unexpected result: {:?}", other),
    }
    assert!(matches!(record_debt_payment_impl(1_000_000_000, 0), Err(DebtError::InvalidPaymentAmount(0))));
    assert!(matches!(record_debt_payment_impl(-5, -7), Err(DebtError::InvalidPaymentAmount(-7))));
    assert!(matches!(record_debt_payment_impl(-5, 1), Err(DebtError::PaymentExceedsBalance { .. })));
    assert!(matches!(record_debt_payment_impl(i64::MIN, i64::MAX), Err(DebtError::PaymentExceedsBalance { .. })));
    assert_eq!(record_debt_payment_impl(i64::MAX, i64::MAX).unwrap(), 0);
}

fn payment(id: i64, amount: i64, date: &str) -> DebtPayment {
    DebtPayment { id, debt_id: 1, amount, date: date.to_string(), plan_id: None, created_at: date.to_string() }
}

#[test]
fn progress_follows_the_payments() {
    let debt = Debt {
        id: 1,
        name: "Card".to_string(),
        balance: 400_000_000,
        original_balance: 1_000_000_000,
        interest_rate: 0,
        min_payment: 0,
        created_at: "2025-01-01".to_string(),
        updated_at: "2025-03-01".to_string(),
    };
    let payments = vec![
        payment(3, 300_000_000, "2025-03-01"),
        payment(2, 200_000_000, "2025-02-01"),
        payment(1, 600_000_000, "2025-01-01"),
    ];
    let progress = get_debt_progress_impl(debt, payments);
    assert_eq!(progress.debt.id, 1);
    assert_eq!(progress.payments.len(), 3);
    assert_eq!(progress.total_paid, 1_100_000_000);
    let history: Vec<(&str, i128)> =
        progress.balance_history.iter().map(|p| (p.date.as_str(), p.balance)).collect();
    assert_eq!(history, vec![("2025-03-01", 700_000_000), ("2025-02-01", 500_000_000), ("2025-01-01", 0)]);
}

#[test]
fn progress_without_payments_is_empty() {
    let debt = Debt {
        id: 1,
        name: "Card".to_string(),
        balance: 1,
        original_balance: i64::MIN,
        interest_rate: 0,
        min_payment: 0,
        created_at: String::new(),
        updated_at: String::new(),
    };
    let progress = get_debt_progress_impl(debt, Vec::new());
    assert_eq!(progress.total_paid, 0);
    assert!(progress.balance_history.is_empty());
    let debt = Debt {
        id: 1,
        name: "Card".to_string(),
        balance: 1,
        original_balance: i64::MAX,
        interest_rate: 0,
        min_payment: 0,
        created_at: String::new(),
        updated_at: String::new(),
    };
    let progress = get_debt_progress_impl(debt, vec![payment(1, i64::MIN, "a"), payment(2, i64::MIN, "b")]);
    assert_eq!(progress.total_paid, 2 * (i64::MIN as i128));
    assert_eq!(progress.balance_history[1].balance, i64::MAX as i128 - 2 * (i64::MIN as i128));
}

#[test]
fn account_statements_bind_what_is_given() {
    assert_eq!(
        list_accounts_statement().sql,
        "SELECT id, name, type, balance, created_at, updated_at FROM accounts ORDER BY name"
    );
    let create = create_account_statement(&NewAccount {
        name: "Main".to_string(),
        account_type: AccountType::CreditCard,
        initial_balance: -12_340_000,
    });
    assert_eq!(create.sql, "INSERT INTO accounts (name, type, balance) VALUES (?, ?, ?)");
    assert_eq!(bound(&create), vec!["text Main", "text credit_card", "dec -12340000"]);
    assert_eq!(AccountType::Checking.name(), "checking");
    assert_eq!(AccountType::Savings.name(), "savings");

    let update = |name: Option<&str>, account_type: Option<AccountType>, balance: Option<i64>| {
        update_account_statement(&UpdateAccount { id: 5, name: name.map(|n| n.to_string()), account_type, balance })
    };
    let all = update(Some("New"), Some(AccountType::Savings), Some(10)).unwrap();
    assert_eq!(
        all.sql,
        "UPDATE accounts SET name = ?, type = ?, balance = ?, updated_at = CURRENT_TIMESTAMP WHERE id = ?"
    );
    assert_eq!(bound(&all), vec!["text New", "text savings", "dec 10", "int 5"]);
    let two = update(None, Some(AccountType::Checking), Some(0)).unwrap();
    assert_eq!(two.sql, "UPDATE accounts SET type = ?, balance = ?, updated_at = CURRENT_TIMESTAMP WHERE id = ?");
    assert_eq!(bound(&two), vec!["text checking", "dec 0", "int 5"]);
    let one = update(Some("Only"), None, None).unwrap();
    assert_eq!(one.sql, "UPDATE accounts SET name = ?, updated_at = CURRENT_TIMESTAMP WHERE id = ?");
    assert_eq!(update(None, None, None).unwrap_err(), "At least one field must be provided for update");
    assert_eq!(account_not_found(99999), "Account with id 99999 not found");
}

#[test]
fn category_statements_bind_what_is_given() {
    assert_eq!(
        list_categories_query(None),
        "SELECT id, name, type, parent_id, icon, created_at FROM categories ORDER BY name"
    );
    assert!(list_categories_query(Some(CategoryFilter::Predefined)).contains("WHERE type = 'predefined'"));
    assert!(list_categories_query(Some(CategoryFilter::Custom)).contains("WHERE type = 'custom'"));
    assert_eq!(CategoryType::Predefined.name(), "predefined");
    assert_eq!(CategoryType::Custom.name(), "custom");
    let create = create_category_statement(&NewCategory { name: "Pets".to_string(), icon: None });
    assert_eq!(create.sql, "INSERT INTO categories (name, type, icon) VALUES (?, 'custom', ?)");
    assert_eq!(bound(&create), vec!["text Pets", "null"]);
    let create = create_category_statement(&NewCategory { name: "Pets".to_string(), icon: Some("🐾".to_string()) });
    assert_eq!(bound(&create), vec!["text Pets", "text 🐾"]);

    let update = |kind: &str, name: Option<&str>, icon: Option<&str>| {
        update_category_statement(
            kind,
            &UpdateCategory { id: 11, name: name.map(|n| n.to_string()), icon: icon.map(|i| i.to_string()) },
        )
    };
    let both = update("custom", Some("A"), Some("B")).unwrap();
    assert_eq!(both.sql, "UPDATE categories SET name = ?, icon = ? WHERE id = ?");
    assert_eq!(bound(&both), vec!["text A", "text B", "int 11"]);
    let name = update("custom", Some("A"), None).unwrap();
    assert_eq!(name.sql, "UPDATE categories SET name = ? WHERE id = ?");
    assert_eq!(bound(&name), vec!["text A", "int 11"]);
    let icon = update("custom", None, Some("B")).unwrap();
    assert_eq!(icon.sql, "UPDATE categories SET icon = ? WHERE id = ?");
    assert_eq!(bound(&icon), vec!["text B", "int 11"]);
    assert_eq!(
        update("custom", None, None).unwrap_err(),
        "At least one field (name or icon) must be provided for update"
    );
    // predefined categories are refused before the fields are looked at
    assert_eq!(update("predefined", None, None).unwrap_err(), "Cannot modify predefined categories");
    assert_eq!(update("predefined", Some("A"), None).unwrap_err(), "Cannot modify predefined categories");
    assert!(update("Predefined", Some("A"), None).is_ok());
    assert!(check_category_deletable("custom").is_ok());
    assert_eq!(check_category_deletable("predefined").unwrap_err(), "Cannot delete predefined categories");
    assert_eq!(category_not_found(3), "Category with id 3 not found");
}

#[test]
fn taken_category_names_are_reported() {
    assert_eq!(
        create_category_error("UNIQUE constraint failed: categories.name", "Pets"),
        "Category with name 'Pets' already exists"
    );
    assert_eq!(create_category_error("not unique", "Pets"), "Category with name 'Pets' already exists");
    assert_eq!(create_category_error("disk I/O error at /home/user/db", "Pets"), "Failed to create category");
    assert_eq!(create_category_error("", ""), "Failed to create category");
}

#[test]
fn rule_statements_normalize_the_pattern() {
    let create = create_category_rule_statement(&NewCategoryRule {
        pattern: "StarBUCKS".to_string(),
        category_id: 2,
        priority: None,
    });
    assert_eq!(create.sql, "INSERT INTO category_rules (pattern, category_id, priority) VALUES (?, ?, ?)");
    assert_eq!(bound(&create), vec!["text starbucks", "int 2", "int 0"]);
    let create = create_category_rule_statement(&NewCategoryRule {
        pattern: "x".to_string(),
        category_id: 2,
        priority: Some(-3),
    });
    assert_eq!(bound(&create), vec!["text x", "int 2", "int -3"]);

    let all = list_category_rules_statement(None);
    assert!(all.sql.ends_with("ON cr.category_id = c.id ORDER BY cr.priority DESC, cr.created_at ASC"));
    assert!(all.parameters.is_empty());
    let some = list_category_rules_statement(Some(CategoryRuleFilter::ByCategoryId(4)));
    assert!(some.sql.contains("WHERE cr.category_id = ? ORDER BY"));
    assert_eq!(bound(&some), vec!["int 4"]);

    let update = |pattern: Option<&str>, category_id: Option<i64>, priority: Option<i32>| {
        update_category_rule_statement(&UpdateCategoryRule {
            id: 8,
            pattern: pattern.map(|p| p.to_string()),
            category_id,
            priority,
        })
    };
    let all = update(Some("AMAZON Prime"), Some(7), Some(20)).unwrap();
    assert_eq!(all.sql, "UPDATE category_rules SET pattern = ?, category_id = ?, priority = ? WHERE id = ?");
    assert_eq!(bound(&all), vec!["text amazon prime", "int 7", "int 20", "int 8"]);
    let two = update(Some("A"), None, Some(1)).unwrap();
    assert_eq!(two.sql, "UPDATE category_rules SET pattern = ?, priority = ? WHERE id = ?");
    assert_eq!(bound(&two), vec!["text a", "int 1", "int 8"]);
    let one = update(None, Some(7), None).unwrap();
    assert_eq!(one.sql, "UPDATE category_rules SET category_id = ? WHERE id = ?");
    assert_eq!(update(None, None, None).unwrap_err(), "At least one field must be provided for update");
    assert_eq!(category_rule_not_found(8), "Category rule with id 8 not found");
}

#[test]
fn column_mappings_are_found_by_id_first() {
    let by_id = get_column_mapping_statement(&GetColumnMappingQuery { id: Some(3), source_name: Some("Bank".to_string()) })
        .unwrap();
    assert!(by_id.sql.ends_with("FROM column_mappings WHERE id = ?"));
    assert_eq!(bound(&by_id), vec!["int 3"]);
    let by_name =
        get_column_mapping_statement(&GetColumnMappingQuery { id: None, source_name: Some("Bank".to_string()) }).unwrap();
    assert!(by_name.sql.ends_with("FROM column_mappings WHERE source_name = ?"));
    assert_eq!(bound(&by_name), vec!["text Bank"]);
    assert_eq!(
        get_column_mapping_statement(&GetColumnMappingQuery { id: None, source_name: None }).unwrap_err(),
        "Either id or source_name must be provided"
    );
    assert_eq!(
        column_mapping_not_found(&GetColumnMappingQuery { id: Some(3), source_name: Some("Bank".to_string()) }),
        "Column mapping with id 3 not found"
    );
    assert_eq!(
        column_mapping_not_found(&GetColumnMappingQuery { id: None, source_name: Some("Bank".to_string()) }),
        "Column mapping with source_name 'Bank' not found"
    );
    assert_eq!(column_mapping_id_not_found(99999), "Column mapping with id 99999 not found");
    assert!(list_column_mappings_statement().sql.ends_with("FROM column_mappings ORDER BY source_name ASC"));
}

#[test]
fn column_mappings_are_saved_and_updated() {
    let mapping = NewColumnMapping {
        source_name: "Bank".to_string(),
        date_col: "Date".to_string(),
        amount_col: "Amount".to_string(),
        description_col: "Memo".to_string(),
        merchant_col: None,
    };
    let insert = save_column_mapping_statement(None, &mapping);
    assert!(insert.sql.starts_with("INSERT INTO column_mappings"));
    assert_eq!(bound(&insert), vec!["text Bank", "text Date", "text Amount", "text Memo", "null"]);
    let update = save_column_mapping_statement(Some(4), &mapping);
    assert!(update.sql.starts_with("UPDATE column_mappings SET date_col = ?"));
    assert_eq!(bound(&update), vec!["text Date", "text Amount", "text Memo", "null", "int 4"]);

    let nothing = UpdateColumnMapping {
        id: 4,
        source_name: None,
        date_col: None,
        amount_col: None,
        description_col: None,
        merchant_col: None,
    };
    assert_eq!(
        update_column_mapping_statement(&nothing).unwrap_err(),
        "At least one field must be provided for update"
    );
    let clear_merchant = UpdateColumnMapping { merchant_col: Some(None), ..nothing.clone() };
    let statement = update_column_mapping_statement(&clear_merchant).unwrap();
    assert_eq!(
        statement.sql,
        "UPDATE column_mappings SET merchant_col = ?, updated_at = CURRENT_TIMESTAMP WHERE id = ?"
    );
    assert_eq!(bound(&statement), vec!["null", "int 4"]);
    let all = UpdateColumnMapping {
        id: 4,
        source_name: Some("S".to_string()),
        date_col: Some("D".to_string()),
        amount_col: Some("A".to_string()),
        description_col: Some("M".to_string()),
        merchant_col: Some(Some("P".to_string())),
    };
    let statement = update_column_mapping_statement(&all).unwrap();
    assert_eq!(
        statement.sql,
        "UPDATE column_mappings SET source_name = ?, date_col = ?, amount_col = ?, description_col = ?, merchant_col = ?, updated_at = CURRENT_TIMESTAMP WHERE id = ?"
    );
    assert_eq!(bound(&statement), vec!["text S", "text D", "text A", "text M", "text P", "int 4"]);
}

fn filter() -> TransactionFilter {
    TransactionFilter {
        account_id: Some(1),
        category_id: Some(2),
        start_date: Some("2025-01-01".to_string()),
        end_date: Some("2025-12-31".to_string()),
        search: Some("coffee".to_string()),
        limit: Some(500),
        offset: Some(20),
    }
}

#[test]
fn filters_become_conditions() {
    let builder = TransactionFilterBuilder::new(&filter());
    assert_eq!(
        builder.build_where_clause(),
        " AND account_id = ? AND category_id = ? AND date >= ? AND date <= ? AND (LOWER(description) LIKE LOWER(?) OR LOWER(merchant) LIKE LOWER(?))"
    );
    assert_eq!(builder.where_clauses.len(), 5);
    let empty = TransactionFilterBuilder::new(&default_filter());
    assert_eq!(empty.build_where_clause(), "");
    assert!(empty.parameters.is_empty());

    let list = list_transactions_statement(&filter());
    assert!(list.sql.starts_with("SELECT id, account_id, category_id, date, amount, description, merchant, hash, created_at FROM transactions WHERE 1=1 AND account_id = ?"));
    assert!(list.sql.ends_with("LIKE LOWER(?)) ORDER BY date DESC LIMIT ? OFFSET ?"));
    // the page is never larger than a hundred
    assert_eq!(
        bound(&list),
        vec!["int 1", "int 2", "text 2025-01-01", "text 2025-12-31", "text %coffee%", "text %coffee%", "int 100", "int 20"]
    );
    let plain = list_transactions_statement(&TransactionFilter { limit: None, offset: None, ..default_filter() });
    assert_eq!(
        plain.sql,
        "SELECT id, account_id, category_id, date, amount, description, merchant, hash, created_at FROM transactions WHERE 1=1 ORDER BY date DESC LIMIT ? OFFSET ?"
    );
    assert_eq!(bound(&plain), vec!["int 50", "int 0"]);
    let small = list_transactions_statement(&TransactionFilter { limit: Some(-5), offset: Some(-1), ..default_filter() });
    assert_eq!(bound(&small), vec!["int -5", "int -1"]);
    let count = count_transactions_statement(&TransactionFilter { category_id: Some(9), ..default_filter() });
    assert_eq!(count.sql, "SELECT COUNT(*) FROM transactions WHERE 1=1 AND category_id = ?");
    assert_eq!(bound(&count), vec!["int 9"]);
}

#[test]
fn searches_are_limited_in_length() {
    let searching = search_filter("coffee".to_string(), None).unwrap();
    assert_eq!(searching.search.as_deref(), Some("coffee"));
    assert_eq!((searching.limit, searching.offset), (Some(50), Some(0)));
    let searching = search_filter("tea".to_string(), Some(filter())).unwrap();
    assert_eq!(searching.search.as_deref(), Some("tea"));
    assert_eq!((searching.account_id, searching.limit), (Some(1), Some(500)));
    assert!(search_filter("x".repeat(100), None).is_ok());
    match search_filter("x".repeat(101), None) {
        Err(e @ TransactionError::ValidationError(_)) => {
            assert_eq!(e.message(), "Validation error: Search query too long (max 100 characters)")
        }
        other => panic!("unexpected result: {:?}", other),
    }
    // the length is counted in bytes
    assert!(search_filter("é".repeat(50), None).is_ok());
    assert!(search_filter("é".repeat(51), None).is_err());
}

#[test]
fn bulk_operations_take_one_to_a_thousand_transactions() {
    let ids: Vec<i64> = (1..=1000).collect();
    assert!(validate_bulk_ids(&ids, BulkAction::Delete).is_ok());
    assert!(validate_bulk_ids(&vec![7], BulkAction::Update).is_ok());
    let ids: Vec<i64> = (1..=1001).collect();
    match validate_bulk_ids(&ids, BulkAction::Delete) {
        Err(TransactionError::ValidationError(reason)) => {
            assert_eq!(reason, "Cannot delete more than 1000 transactions at once")
        }
        other => panic!("unexpected result: {:?}", other),
    }
    match validate_bulk_ids(&ids, BulkAction::Update) {
        Err(TransactionError::ValidationError(reason)) => {
            assert_eq!(reason, "Cannot update more than 1000 transactions at once")
        }
        other => panic!("unexpected result: {:?}", other),
    }
    for action in [BulkAction::Delete, BulkAction::Update] {
        match validate_bulk_ids(&Vec::new(), action) {
            Err(TransactionError::ValidationError(reason)) => assert_eq!(reason, "Transaction IDs cannot be empty"),
            other => panic!("unexpected result: {:?}", other),
        }
    }
}

#[test]
fn bulk_results_count_and_list() {
    let ids = vec![5, 6, 7, 8];
    let deleted = bulk_delete_result(&ids, &vec![true, false, true, false]);
    assert!(deleted.success);
    assert_eq!(deleted.deleted_count, 2);
    assert_eq!(deleted.failed_ids, vec![6, 8]);
    let updated = bulk_update_result(&ids, &vec![true, true, true, true]);
    assert!(updated.success);
    assert_eq!(updated.updated_count, 4);
    assert!(updated.failed_ids.is_empty());
    let none = bulk_update_result(&Vec::new(), &Vec::new());
    assert_eq!((none.updated_count, none.failed_ids.len()), (0, 0));
}

fn transaction(id: i64, date: &str, amount: i64, description: &str, merchant: Option<&str>) -> Transaction {
    Transaction {
        id,
        account_id: 1,
        category_id: 1,
        date: date.to_string(),
        amount,
        description: description.to_string(),
        merchant: merchant.map(|m| m.to_string()),
        hash: String::new(),
        created_at: String::new(),
    }
}

#[test]
fn transactions_are_exported_as_comma_separated_values() {
    let transactions = vec![
        transaction(1, "2025-01-15", -45_500_000, "Coffee", Some("Starbucks")),
        transaction(2, "2025-01-16", 1_200_000_000, "Salary", None),
        transaction(3, "2025-01-17", -1, "Dust", Some("")),
    ];
    let names = vec![(1, "Dining".to_string()), (2, "Old".to_string()), (2, "Income".to_string())];
    assert_eq!(
        export_csv(&transactions, &names),
        "Date,Amount,Description,Merchant,Category\n\
         2025-01-15,-45.5,Coffee,Starbucks,Dining\n\
         2025-01-16,1200,Salary,,Income\n\
         2025-01-17,-0.000001,Dust,,Unknown\n"
    );
    assert_eq!(export_csv(&Vec::new(), &names), "Date,Amount,Description,Merchant,Category\n");
    let result = export_result("/tmp/out.csv".to_string(), 3);
    assert!(result.success);
    assert_eq!((result.file_path.as_str(), result.record_count), ("/tmp/out.csv", 3));
}

#[test]
fn export_forms_are_read_from_their_names() {
    assert_eq!(ExportFormat::parse("csv").unwrap(), ExportFormat::Csv);
    assert_eq!(ExportFormat::parse("json").unwrap(), ExportFormat::Json);
    match ExportFormat::parse("xml") {
        Err(e @ TransactionError::Database(_)) => {
            assert_eq!(e.message(), "Database error: Unsupported format: xml");
            assert_eq!(e.to_user_message(), "Failed to complete transaction operation");
        }
        other => panic!("unexpected result: {:?}", other),
    }
    assert!(ExportFormat::parse("CSV").is_err());
}

#[test]
fn category_names_are_asked_for_by_the_numbers() {
    let statement = category_names_statement(&vec![4, 5, 6]);
    assert_eq!(
        statement.sql,
        "SELECT t.id, c.name FROM transactions t JOIN categories c ON t.category_id = c.id WHERE t.id IN (?,?,?)"
    );
    assert_eq!(bound(&statement), vec!["int 4", "int 5", "int 6"]);
    assert!(category_names_statement(&Vec::new()).sql.ends_with("IN ()"));
    assert!(category_names_statement(&vec![1]).sql.ends_with("IN (?)"));
}
