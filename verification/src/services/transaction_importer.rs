use vstd::prelude::*;
use vstd::string::StringExecFns;
use crate::constants::{DEFAULT_CATEGORY_ID, MAX_TRANSACTION_AMOUNT};
use crate::text::{format_money, join, magnitude, magnitude_of, money_text};

verus! {

#[derive(Debug)]
pub enum ImportError {
    CsvError(String),
    DuplicateError(String),
    CategorizerError(String),
    ValidationError(String),
    DatabaseError(String),
}

impl ImportError {
    /// What the error says.
    pub open spec fn text(self) -> Seq<char> {
        match self {
            ImportError::CsvError(e) => "CSV Error: "@ + e@,
            ImportError::DuplicateError(e) => "Duplicate Detection Error: "@ + e@,
            ImportError::CategorizerError(e) => "Categorization Error: "@ + e@,
            ImportError::ValidationError(e) => "Validation Error: "@ + e@,
            ImportError::DatabaseError(e) => "Database Error: "@ + e@,
        }
    }

    /// The text of the error.
    pub fn message(&self) -> (message: String)
        ensures
            message@ == self.text(),
    {
        match self {
            ImportError::CsvError(e) => join("CSV Error: ", e.as_str()),
            ImportError::DuplicateError(e) => join("Duplicate Detection Error: ", e.as_str()),
            ImportError::CategorizerError(e) => join("Categorization Error: ", e.as_str()),
            ImportError::ValidationError(e) => join("Validation Error: ", e.as_str()),
            ImportError::DatabaseError(e) => join("Database Error: ", e.as_str()),
        }
    }
}

/// What became of the transactions of a file.
#[derive(Debug, Clone, Copy, PartialEq, Eq, Structural)]
pub struct ImportStats {
    pub total: usize,
    pub imported: usize,
    pub duplicates: usize,
    pub errors: usize,
}

/// What became of one transaction.
#[derive(Debug, Clone, Copy, PartialEq, Eq, Structural)]
pub enum ImportEvent {
    /// It was stored before and is passed over.
    Duplicate,
    /// It was stored.
    Imported,
    /// The store refused it.
    Failed,
}

impl ImportStats {
    /// How many transactions have been dealt with.
    pub open spec fn seen(self) -> int {
        self.imported + self.duplicates + self.errors
    }

    /// The counts before any of `total` transactions is dealt with.
    pub fn new(total: usize) -> (stats: ImportStats)
        ensures
            stats == (ImportStats { total, imported: 0, duplicates: 0, errors: 0 }),
    {
        ImportStats { total, imported: 0, duplicates: 0, errors: 0 }
    }

    /// Counts what became of one more transaction.
    pub fn record(&mut self, event: ImportEvent)
        requires
            old(self).seen() < old(self).total,
        ensures
            *final(self) == (match event {
                ImportEvent::Duplicate => ImportStats { duplicates: (old(self).duplicates + 1) as usize, ..*old(self) },
                ImportEvent::Imported => ImportStats { imported: (old(self).imported + 1) as usize, ..*old(self) },
                ImportEvent::Failed => ImportStats { errors: (old(self).errors + 1) as usize, ..*old(self) },
            }),
            final(self).seen() == old(self).seen() + 1,
    {
        match event {
            ImportEvent::Duplicate => {
                self.duplicates = self.duplicates + 1;
            },
            ImportEvent::Imported => {
                self.imported = self.imported + 1;
            },
            ImportEvent::Failed => {
                self.errors = self.errors + 1;
            },
        }
    }
}

/// What is said of an amount beyond the largest allowed.
pub open spec fn excessive_amount_text(amount: int) -> Seq<char> {
    "Transaction amount $"@ + money_text(magnitude(amount) as int) + " exceeds maximum allowed amount of $"@
        + money_text(MAX_TRANSACTION_AMOUNT as int)
}

pub struct TransactionImporter;

impl TransactionImporter {
    /// Validate transaction amount: its size must not exceed the largest amount allowed.
    pub fn validate_amount(amount: i64) -> (result: Result<(), ImportError>)
        ensures
            magnitude(amount as int) <= MAX_TRANSACTION_AMOUNT ==> result is Ok,
            magnitude(amount as int) > MAX_TRANSACTION_AMOUNT ==> (result matches Err(
                ImportError::ValidationError(reason),
            ) && reason@ == excessive_amount_text(amount as int)),
    {
        let size = magnitude_of(amount as i128);
        if size > MAX_TRANSACTION_AMOUNT as u128 {
            let mut reason = join("Transaction amount $", format_money(size as i128).as_str());
            reason.append(" exceeds maximum allowed amount of $");
            reason.append(format_money(MAX_TRANSACTION_AMOUNT as i128).as_str());
            return Err(ImportError::ValidationError(reason));
        }
        Ok(())
    }

    /// The category under which a transaction is stored: the one found for it, or the
    /// category of what is not categorized.
    pub fn category_or_default(found: Option<i64>) -> (category: i64)
        ensures
            category == (match found {
                Some(c) => c,
                None => DEFAULT_CATEGORY_ID,
            }),
    {
        match found {
            Some(c) => c,
            None => DEFAULT_CATEGORY_ID,  // Default to uncategorized
        }
    }
}

} // verus!
