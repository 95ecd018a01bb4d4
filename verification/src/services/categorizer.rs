use vstd::prelude::*;
use crate::models::category_rule::CategoryRule;
use crate::services::summation::{first_where, lemma_first_where_is};
use crate::text::{contains, join, lowercase, lowercase_text, text_occurs_in};

verus! {

#[derive(Debug)]
pub enum CategorizerError {
    DatabaseError(String),
}

impl CategorizerError {
    /// What the error says.
    pub open spec fn text(self) -> Seq<char> {
        match self {
            CategorizerError::DatabaseError(e) => "Database Error: "@ + e@,
        }
    }

    /// The text of the error.
    pub fn message(&self) -> (message: String)
        ensures
            message@ == self.text(),
    {
        match self {
            CategorizerError::DatabaseError(e) => join("Database Error: ", e.as_str()),
        }
    }
}

/// The text by which a transaction is categorized: its merchant, or its description if it
/// has no merchant; in lower case.
pub open spec fn text_to_match(merchant: Option<Seq<char>>, description: Seq<char>) -> Seq<char> {
    lowercase_text(
        match merchant {
            Some(m) => m,
            None => description,
        },
    )
}

/// The rule's pattern, in lower case, occurs in the text.
pub open spec fn rule_matches(rule: CategoryRule, text: Seq<char>) -> bool {
    text_occurs_in(lowercase_text(rule.pattern@), text)
}

/// The category of the first rule that matches, if any does.
pub open spec fn matched_category(
    rules: Seq<CategoryRule>,
    merchant: Option<Seq<char>>,
    description: Seq<char>,
) -> Option<int> {
    let text = text_to_match(merchant, description);
    let at = first_where(rules, |rule: CategoryRule| rule_matches(rule, text));
    if at < rules.len() {
        Some(rules[at].category_id as int)
    } else {
        None
    }
}

pub struct Categorizer;

impl Categorizer {
    /// Finds the best matching category for a transaction based on merchant/description:
    /// that of the first of the rules, taken in the order given, whose pattern occurs in the
    /// merchant, or in the description where there is no merchant, letter case set aside.
    /// Returns the category_id, or None if no rule matches.
    pub fn categorize(rules: &Vec<CategoryRule>, merchant: Option<&str>, description: &str) -> (category: Option<i64>)
        ensures
            match category {
                Some(c) => matched_category(
                    rules@,
                    match merchant {
                        Some(m) => Some(m@),
                        None => None,
                    },
                    description@,
                ) == Some(c as int),
                None => matched_category(
                    rules@,
                    match merchant {
                        Some(m) => Some(m@),
                        None => None,
                    },
                    description@,
                ) is None,
            },
    {
        // Try to match against merchant first, then description
        let text = lowercase(
            match merchant {
                Some(m) => m,
                None => description,
            },
        );
        let mut i: usize = 0;
        while i < rules.len()
            invariant
                i <= rules.len(),
                text@ == text_to_match(
                    match merchant {
                        Some(m) => Some(m@),
                        None => None,
                    },
                    description@,
                ),
                forall|k: int| 0 <= k < i ==> !rule_matches(#[trigger] rules@[k], text@),
            decreases rules.len() - i,
        {
            if contains(text.as_str(), lowercase(rules[i].pattern.as_str()).as_str()) {
                proof {
                    lemma_first_where_is(rules@, |rule: CategoryRule| rule_matches(rule, text@), i as int);
                }
                return Some(rules[i].category_id);
            }
            i += 1;
        }
        proof {
            lemma_first_where_is(rules@, |rule: CategoryRule| rule_matches(rule, text@), rules.len() as int);
        }
        None
    }
}

} // verus!
