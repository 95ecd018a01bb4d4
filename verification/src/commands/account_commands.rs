use vstd::prelude::*;
use crate::db::statement::{SqlValue, SqlValueModel, Statement};
use crate::models::account::{NewAccount, UpdateAccount};
use crate::text::{decimal, decimal_text, join3, join_all, joined, texts};

verus! {

/// The statement that lists the accounts by name.
pub fn list_accounts_statement() -> (statement: Statement)
    ensures
        statement.sql@ == "SELECT id, name, type, balance, created_at, updated_at FROM accounts ORDER BY name"@,
        statement.parameters@.len() == 0,
{
    Statement {
        sql: "SELECT id, name, type, balance, created_at, updated_at FROM accounts ORDER BY name".to_owned(),
        parameters: Vec::new(),
    }
}

/// The statement that stores a new account.
pub fn create_account_statement(account: &NewAccount) -> (statement: Statement)
    ensures
        statement.sql@ == "INSERT INTO accounts (name, type, balance) VALUES (?, ?, ?)"@,
        statement.bound() == seq![
            SqlValueModel::Text(account.name@),
            SqlValueModel::Text(account.account_type.text()),
            SqlValueModel::Decimal(account.initial_balance as int),
        ],
{
    let mut parameters: Vec<SqlValue> = Vec::new();
    parameters.push(SqlValue::Text(account.name.clone()));
    parameters.push(SqlValue::Text(account.account_type.name()));
    parameters.push(SqlValue::Decimal(account.initial_balance));
    let statement = Statement {
        sql: "INSERT INTO accounts (name, type, balance) VALUES (?, ?, ?)".to_owned(),
        parameters,
    };
    proof {
        assert(statement.bound() =~= seq![
            SqlValueModel::Text(account.name@),
            SqlValueModel::Text(account.account_type.text()),
            SqlValueModel::Decimal(account.initial_balance as int),
        ]);
    }
    statement
}

/// The update names no field to change.
pub open spec fn changes_nothing(update: UpdateAccount) -> bool {
    update.name is None && update.account_type is None && update.balance is None
}

/// The assignments of the statement that updates an account: one for each field given, in
/// the order name, type, balance, and the time of the update.
pub open spec fn account_assignments(update: UpdateAccount) -> Seq<Seq<char>> {
    (if update.name is Some {
        seq!["name = ?"@]
    } else {
        Seq::<Seq<char>>::empty()
    }) + (if update.account_type is Some {
        seq!["type = ?"@]
    } else {
        Seq::<Seq<char>>::empty()
    }) + (if update.balance is Some {
        seq!["balance = ?"@]
    } else {
        Seq::<Seq<char>>::empty()
    }) + seq!["updated_at = CURRENT_TIMESTAMP"@]
}

/// The values of the statement that updates an account: the fields given, in the order of
/// the assignments, and the account's number.
pub open spec fn account_values(update: UpdateAccount) -> Seq<SqlValueModel> {
    (if update.name is Some {
        seq![SqlValueModel::Text(update.name->0@)]
    } else {
        Seq::<SqlValueModel>::empty()
    }) + (if update.account_type is Some {
        seq![SqlValueModel::Text(update.account_type->0.text())]
    } else {
        Seq::<SqlValueModel>::empty()
    }) + (if update.balance is Some {
        seq![SqlValueModel::Decimal(update.balance->0 as int)]
    } else {
        Seq::<SqlValueModel>::empty()
    }) + seq![SqlValueModel::Integer(update.id as int)]
}

/// Builds the statement that updates the fields given of an account. An update that gives
/// no field is refused.
pub fn update_account_statement(update: &UpdateAccount) -> (result: Result<Statement, String>)
    ensures
        match result {
            Ok(statement) => {
                &&& !changes_nothing(*update)
                &&& statement.sql@ == "UPDATE accounts SET "@ + joined(account_assignments(*update), ", "@)
                    + " WHERE id = ?"@
                &&& statement.bound() == account_values(*update)
            },
            Err(message) => changes_nothing(*update) && message@
                == "At least one field must be provided for update"@,
        },
{
    let mut updates: Vec<String> = Vec::new();
    let mut parameters: Vec<SqlValue> = Vec::new();
    match &update.name {
        Some(name) => {
            updates.push("name = ?".to_owned());
            parameters.push(SqlValue::Text(name.clone()));
        },
        None => {},
    }
    match &update.account_type {
        Some(account_type) => {
            updates.push("type = ?".to_owned());
            parameters.push(SqlValue::Text(account_type.name()));
        },
        None => {},
    }
    match update.balance {
        Some(balance) => {
            updates.push("balance = ?".to_owned());
            parameters.push(SqlValue::Decimal(balance));
        },
        None => {},
    }
    if updates.len() == 0 {
        return Err("At least one field must be provided for update".to_owned());
    }
    updates.push("updated_at = CURRENT_TIMESTAMP".to_owned());
    parameters.push(SqlValue::Integer(update.id));
    proof {
        assert(texts(updates@) =~= account_assignments(*update));
    }
    let statement = Statement {
        sql: join3("UPDATE accounts SET ", join_all(&updates, ", ").as_str(), " WHERE id = ?"),
        parameters,
    };
    proof {
        assert(statement.bound() =~= account_values(*update));
    }
    Ok(statement)
}

/// What is said of an account that is not there.
pub fn account_not_found(id: i64) -> (message: String)
    ensures
        message@ == "Account with id "@ + decimal_text(id as int) + " not found"@,
{
    join3("Account with id ", decimal(id as i128).as_str(), " not found")
}

} // verus!
