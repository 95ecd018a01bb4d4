use vstd::prelude::*;
use crate::db::statement::{SqlValue, SqlValueModel, Statement, text_or_null};
use crate::errors::sanitize_db_error;
use crate::models::category::{CategoryFilter, NewCategory, UpdateCategory};
use crate::text::{
    contains, decimal, decimal_text, join3, lowercase, lowercase_text, text_occurs_in,
};

verus! {

/// The text of the query that lists the categories by name: all of them, or those of one
/// type.
pub open spec fn list_categories_text(filter: Option<CategoryFilter>) -> Seq<char> {
    match filter {
        Some(CategoryFilter::Predefined) => "SELECT id, name, type, parent_id, icon, created_at FROM categories WHERE type = 'predefined' ORDER BY name"@,
        Some(CategoryFilter::Custom) => "SELECT id, name, type, parent_id, icon, created_at FROM categories WHERE type = 'custom' ORDER BY name"@,
        None => "SELECT id, name, type, parent_id, icon, created_at FROM categories ORDER BY name"@,
    }
}

/// The query that lists the categories.
pub fn list_categories_query(filter: Option<CategoryFilter>) -> (query: String)
    ensures
        query@ == list_categories_text(filter),
{
    match filter {
        Some(CategoryFilter::Predefined) => "SELECT id, name, type, parent_id, icon, created_at FROM categories WHERE type = 'predefined' ORDER BY name".to_owned(),
        Some(CategoryFilter::Custom) => "SELECT id, name, type, parent_id, icon, created_at FROM categories WHERE type = 'custom' ORDER BY name".to_owned(),
        None => "SELECT id, name, type, parent_id, icon, created_at FROM categories ORDER BY name".to_owned(),
    }
}

/// The statement that stores a new category, which is a custom one.
pub fn create_category_statement(category: &NewCategory) -> (statement: Statement)
    ensures
        statement.sql@ == "INSERT INTO categories (name, type, icon) VALUES (?, 'custom', ?)"@,
        statement.bound() == seq![SqlValueModel::Text(category.name@), text_or_null(category.icon)],
{
    let mut parameters: Vec<SqlValue> = Vec::new();
    parameters.push(SqlValue::Text(category.name.clone()));
    parameters.push(optional_text(&category.icon));
    let statement = Statement {
        sql: "INSERT INTO categories (name, type, icon) VALUES (?, 'custom', ?)".to_owned(),
        parameters,
    };
    proof {
        assert(statement.bound() =~= seq![SqlValueModel::Text(category.name@), text_or_null(category.icon)]);
    }
    statement
}

/// The value that binds a text, or no value where there is none.
pub fn optional_text(text: &Option<String>) -> (value: SqlValue)
    ensures
        value@ == text_or_null(*text),
{
    match text {
        Some(t) => SqlValue::Text(t.clone()),
        None => SqlValue::Null,
    }
}

/// What the user is told when a category could not be stored: that the name is taken, if
/// the store speaks of uniqueness, and else only that the operation failed.
pub fn create_category_error(detail: &str, name: &str) -> (message: String)
    ensures
        message@ == (if text_occurs_in("unique"@, lowercase_text(detail@)) {
            "Category with name '"@ + name@ + "' already exists"@
        } else {
            "Failed to create category"@
        }),
{
    if contains(lowercase(detail).as_str(), "unique") {
        join3("Category with name '", name, "' already exists")
    } else {
        proof {
            reveal_strlit("Failed to ");
            reveal_strlit("create category");
            reveal_strlit("Failed to create category");
            assert("Failed to "@ + "create category"@ =~= "Failed to create category"@);
        }
        sanitize_db_error(detail, "create category")
    }
}

/// Why a category cannot be updated, if it cannot: predefined categories are not to be
/// modified, and an update has to give a name or an icon.
pub open spec fn update_category_problem(existing_type: Seq<char>, update: UpdateCategory) -> Option<Seq<char>> {
    if existing_type == "predefined"@ {
        Some("Cannot modify predefined categories"@)
    } else if update.name is None && update.icon is None {
        Some("At least one field (name or icon) must be provided for update"@)
    } else {
        None
    }
}

/// The text of the statement that updates a category.
pub open spec fn update_category_text(update: UpdateCategory) -> Seq<char> {
    if update.name is Some && update.icon is Some {
        "UPDATE categories SET name = ?, icon = ? WHERE id = ?"@
    } else if update.name is Some {
        "UPDATE categories SET name = ? WHERE id = ?"@
    } else {
        "UPDATE categories SET icon = ? WHERE id = ?"@
    }
}

/// The values of the statement that updates a category.
pub open spec fn update_category_values(update: UpdateCategory) -> Seq<SqlValueModel> {
    (if update.name is Some {
        seq![SqlValueModel::Text(update.name->0@)]
    } else {
        Seq::<SqlValueModel>::empty()
    }) + (if update.icon is Some {
        seq![SqlValueModel::Text(update.icon->0@)]
    } else {
        Seq::<SqlValueModel>::empty()
    }) + seq![SqlValueModel::Integer(update.id as int)]
}

/// Builds the statement that updates a category of the type given, which is the type of
/// the category as it is stored.
pub fn update_category_statement(existing_type: &str, update: &UpdateCategory) -> (result: Result<Statement, String>)
    ensures
        match result {
            Ok(statement) => {
                &&& update_category_problem(existing_type@, *update) is None
                &&& statement.sql@ == update_category_text(*update)
                &&& statement.bound() == update_category_values(*update)
            },
            Err(message) => update_category_problem(existing_type@, *update) == Some(message@),
        },
{
    // Prevent modification of predefined categories
    if existing_type.to_owned() == "predefined".to_owned() {
        return Err("Cannot modify predefined categories".to_owned());
    }
    let mut parameters: Vec<SqlValue> = Vec::new();
    let sql = match (&update.name, &update.icon) {
        (Some(name), Some(icon)) => {
            parameters.push(SqlValue::Text(name.clone()));
            parameters.push(SqlValue::Text(icon.clone()));
            "UPDATE categories SET name = ?, icon = ? WHERE id = ?"
        },
        (Some(name), None) => {
            parameters.push(SqlValue::Text(name.clone()));
            "UPDATE categories SET name = ? WHERE id = ?"
        },
        (None, Some(icon)) => {
            parameters.push(SqlValue::Text(icon.clone()));
            "UPDATE categories SET icon = ? WHERE id = ?"
        },
        (None, None) => {
            return Err("At least one field (name or icon) must be provided for update".to_owned());
        },
    };
    parameters.push(SqlValue::Integer(update.id));
    let statement = Statement { sql: sql.to_owned(), parameters };
    proof {
        assert(statement.bound() =~= update_category_values(*update));
    }
    Ok(statement)
}

/// Checks that a category of the type given may be deleted: predefined ones may not.
pub fn check_category_deletable(existing_type: &str) -> (result: Result<(), String>)
    ensures
        existing_type@ != "predefined"@ ==> result is Ok,
        existing_type@ == "predefined"@ ==> (result matches Err(message) && message@
            == "Cannot delete predefined categories"@),
{
    if existing_type.to_owned() == "predefined".to_owned() {
        return Err("Cannot delete predefined categories".to_owned());
    }
    Ok(())
}

/// What is said of a category that is not there.
pub fn category_not_found(id: i64) -> (message: String)
    ensures
        message@ == "Category with id "@ + decimal_text(id as int) + " not found"@,
{
    join3("Category with id ", decimal(id as i128).as_str(), " not found")
}

} // verus!
