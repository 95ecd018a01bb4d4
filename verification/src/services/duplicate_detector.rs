use vstd::prelude::*;
use crate::models::transaction::{NewTransaction, transaction_hash};
use crate::text::join;

verus! {

#[derive(Debug)]
pub enum DuplicateError {
    DatabaseError(String),
}

impl DuplicateError {
    /// What the error says.
    pub open spec fn text(self) -> Seq<char> {
        match self {
            DuplicateError::DatabaseError(e) => "Database Error: "@ + e@,
        }
    }

    /// The text of the error.
    pub fn message(&self) -> (message: String)
        ensures
            message@ == self.text(),
    {
        match self {
            DuplicateError::DatabaseError(e) => join("Database Error: ", e.as_str()),
        }
    }
}

pub struct DuplicateDetector;

impl DuplicateDetector {
    /// The hash under which a transaction is looked for among those stored.
    pub fn lookup_hash(date: &str, amount: i64, description: &str) -> (hash: String)
        ensures
            hash@ == transaction_hash(date@, amount as int, description@),
    {
        NewTransaction::calculate_hash(date, amount, description)
    }

    /// A transaction is a duplicate if the store counts at least one transaction with its
    /// hash; a count that is missing counts as none.
    pub fn is_duplicate(stored_with_hash: Option<i64>) -> (duplicate: bool)
        ensures
            duplicate == (stored_with_hash matches Some(count) && count > 0),
    {
        match stored_with_hash {
            Some(count) => count > 0,
            None => false,
        }
    }
}

} // verus!
