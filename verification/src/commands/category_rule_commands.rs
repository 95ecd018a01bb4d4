use vstd::prelude::*;
use crate::db::statement::{SqlValue, SqlValueModel, Statement};
use crate::models::category_rule::{CategoryRuleFilter, NewCategoryRule, UpdateCategoryRule};
use crate::text::{decimal, decimal_text, join3, join_all, joined, lowercase, lowercase_text, texts};

verus! {

/// The priority of a rule that is given none.
pub const DEFAULT_RULE_PRIORITY: i32 = 0;

/// The statement that stores a new rule: its pattern in lower case, and the default priority
/// where none is given.
pub fn create_category_rule_statement(rule: &NewCategoryRule) -> (statement: Statement)
    ensures
        statement.sql@ == "INSERT INTO category_rules (pattern, category_id, priority) VALUES (?, ?, ?)"@,
        statement.bound() == seq![
            SqlValueModel::Text(lowercase_text(rule.pattern@)),
            SqlValueModel::Integer(rule.category_id as int),
            SqlValueModel::Integer(
                match rule.priority {
                    Some(p) => p as int,
                    None => DEFAULT_RULE_PRIORITY as int,
                },
            ),
        ],
{
    // Normalize pattern to lowercase
    let normalized_pattern = lowercase(rule.pattern.as_str());
    // Default priority to 0 if not provided
    let priority = match rule.priority {
        Some(p) => p,
        None => DEFAULT_RULE_PRIORITY,
    };
    let mut parameters: Vec<SqlValue> = Vec::new();
    parameters.push(SqlValue::Text(normalized_pattern));
    parameters.push(SqlValue::Integer(rule.category_id));
    parameters.push(SqlValue::Integer(priority as i64));
    let statement = Statement {
        sql: "INSERT INTO category_rules (pattern, category_id, priority) VALUES (?, ?, ?)".to_owned(),
        parameters,
    };
    proof {
        assert(statement.bound() =~= seq![
            SqlValueModel::Text(lowercase_text(rule.pattern@)),
            SqlValueModel::Integer(rule.category_id as int),
            SqlValueModel::Integer(
                match rule.priority {
                    Some(p) => p as int,
                    None => DEFAULT_RULE_PRIORITY as int,
                },
            ),
        ]);
    }
    statement
}

/// The statement that lists the rules with the names of their categories, the highest
/// priority first and the oldest first among equals: all rules, or those of one category.
pub fn list_category_rules_statement(filter: Option<CategoryRuleFilter>) -> (statement: Statement)
    ensures
        match filter {
            Some(CategoryRuleFilter::ByCategoryId(category_id)) => {
                &&& statement.sql@ == "SELECT cr.id, cr.pattern, cr.category_id, c.name as category_name, cr.priority, cr.created_at FROM category_rules cr JOIN categories c ON cr.category_id = c.id WHERE cr.category_id = ? ORDER BY cr.priority DESC, cr.created_at ASC"@
                &&& statement.bound() == seq![SqlValueModel::Integer(category_id as int)]
            },
            None => {
                &&& statement.sql@ == "SELECT cr.id, cr.pattern, cr.category_id, c.name as category_name, cr.priority, cr.created_at FROM category_rules cr JOIN categories c ON cr.category_id = c.id ORDER BY cr.priority DESC, cr.created_at ASC"@
                &&& statement.bound() == Seq::<SqlValueModel>::empty()
            },
        },
{
    let mut parameters: Vec<SqlValue> = Vec::new();
    let statement = match filter {
        Some(CategoryRuleFilter::ByCategoryId(category_id)) => {
            parameters.push(SqlValue::Integer(category_id));
            Statement {
                sql: "SELECT cr.id, cr.pattern, cr.category_id, c.name as category_name, cr.priority, cr.created_at FROM category_rules cr JOIN categories c ON cr.category_id = c.id WHERE cr.category_id = ? ORDER BY cr.priority DESC, cr.created_at ASC".to_owned(),
                parameters,
            }
        },
        None => Statement {
            sql: "SELECT cr.id, cr.pattern, cr.category_id, c.name as category_name, cr.priority, cr.created_at FROM category_rules cr JOIN categories c ON cr.category_id = c.id ORDER BY cr.priority DESC, cr.created_at ASC".to_owned(),
            parameters,
        },
    };
    proof {
        match filter {
            Some(CategoryRuleFilter::ByCategoryId(category_id)) => {
                assert(statement.bound() =~= seq![SqlValueModel::Integer(category_id as int)]);
            },
            None => {
                assert(statement.bound() =~= Seq::<SqlValueModel>::empty());
            },
        }
    }
    statement
}

/// The update names no field to change.
pub open spec fn changes_nothing(update: UpdateCategoryRule) -> bool {
    update.pattern is None && update.category_id is None && update.priority is None
}

/// The assignments of the statement that updates a rule: one for each field given, in the
/// order pattern, category, priority.
pub open spec fn rule_assignments(update: UpdateCategoryRule) -> Seq<Seq<char>> {
    (if update.pattern is Some {
        seq!["pattern = ?"@]
    } else {
        Seq::<Seq<char>>::empty()
    }) + (if update.category_id is Some {
        seq!["category_id = ?"@]
    } else {
        Seq::<Seq<char>>::empty()
    }) + (if update.priority is Some {
        seq!["priority = ?"@]
    } else {
        Seq::<Seq<char>>::empty()
    })
}

/// The values of the statement that updates a rule: the fields given, the pattern in lower
/// case, and the rule's number.
pub open spec fn rule_values(update: UpdateCategoryRule) -> Seq<SqlValueModel> {
    (if update.pattern is Some {
        seq![SqlValueModel::Text(lowercase_text(update.pattern->0@))]
    } else {
        Seq::<SqlValueModel>::empty()
    }) + (if update.category_id is Some {
        seq![SqlValueModel::Integer(update.category_id->0 as int)]
    } else {
        Seq::<SqlValueModel>::empty()
    }) + (if update.priority is Some {
        seq![SqlValueModel::Integer(update.priority->0 as int)]
    } else {
        Seq::<SqlValueModel>::empty()
    }) + seq![SqlValueModel::Integer(update.id as int)]
}

/// Builds the statement that updates the fields given of a rule. An update that gives no
/// field is refused.
pub fn update_category_rule_statement(update: &UpdateCategoryRule) -> (result: Result<Statement, String>)
    ensures
        match result {
            Ok(statement) => {
                &&& !changes_nothing(*update)
                &&& statement.sql@ == "UPDATE category_rules SET "@ + joined(rule_assignments(*update), ", "@)
                    + " WHERE id = ?"@
                &&& statement.bound() == rule_values(*update)
            },
            Err(message) => changes_nothing(*update) && message@
                == "At least one field must be provided for update"@,
        },
{
    let mut updates: Vec<String> = Vec::new();
    let mut parameters: Vec<SqlValue> = Vec::new();
    match &update.pattern {
        Some(pattern) => {
            updates.push("pattern = ?".to_owned());
            parameters.push(SqlValue::Text(lowercase(pattern.as_str())));
        },
        None => {},
    }
    match update.category_id {
        Some(category_id) => {
            updates.push("category_id = ?".to_owned());
            parameters.push(SqlValue::Integer(category_id));
        },
        None => {},
    }
    match update.priority {
        Some(priority) => {
            updates.push("priority = ?".to_owned());
            parameters.push(SqlValue::Integer(priority as i64));
        },
        None => {},
    }
    if updates.len() == 0 {
        return Err("At least one field must be provided for update".to_owned());
    }
    parameters.push(SqlValue::Integer(update.id));
    proof {
        assert(texts(updates@) =~= rule_assignments(*update));
    }
    let statement = Statement {
        sql: join3("UPDATE category_rules SET ", join_all(&updates, ", ").as_str(), " WHERE id = ?"),
        parameters,
    };
    proof {
        assert(statement.bound() =~= rule_values(*update));
    }
    Ok(statement)
}

/// What is said of a rule that is not there.
pub fn category_rule_not_found(id: i64) -> (message: String)
    ensures
        message@ == "Category rule with id "@ + decimal_text(id as int) + " not found"@,
{
    join3("Category rule with id ", decimal(id as i128).as_str(), " not found")
}

} // verus!
