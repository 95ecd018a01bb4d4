use vstd::prelude::*;

verus! {

/// A value bound to a placeholder of a statement.
#[derive(Debug)]
pub enum SqlValue {
    Integer(i64),
    /// A number given in millionths, stored as a real number.
    Decimal(i64),
    Text(String),
    Null,
}

/// A value bound to a placeholder, as contracts speak of it.
pub enum SqlValueModel {
    Integer(int),
    Decimal(int),
    Text(Seq<char>),
    Null,
}

impl View for SqlValue {
    type V = SqlValueModel;

    open spec fn view(&self) -> SqlValueModel {
        match self {
            SqlValue::Integer(n) => SqlValueModel::Integer(*n as int),
            SqlValue::Decimal(n) => SqlValueModel::Decimal(*n as int),
            SqlValue::Text(t) => SqlValueModel::Text(t@),
            SqlValue::Null => SqlValueModel::Null,
        }
    }
}

/// A statement with placeholders, and the values bound to them in order.
#[derive(Debug)]
pub struct Statement {
    pub sql: String,
    pub parameters: Vec<SqlValue>,
}

impl Statement {
    /// The values bound to the placeholders, in order.
    pub open spec fn bound(&self) -> Seq<SqlValueModel> {
        self.parameters@.map_values(|v: SqlValue| v@)
    }
}

/// A text, or no value where there is none.
pub open spec fn text_or_null(text: Option<String>) -> SqlValueModel {
    match text {
        Some(t) => SqlValueModel::Text(t@),
        None => SqlValueModel::Null,
    }
}

} // verus!
