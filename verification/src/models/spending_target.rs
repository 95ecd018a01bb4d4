use vstd::prelude::*;

verus! {

/// A spending target. Amounts are in millionths of a currency unit.
#[derive(Debug, Clone)]
pub struct SpendingTarget {
    pub id: i64,
    pub category_id: i64,
    pub amount: i64,
    pub period: String,  // 'monthly', 'quarterly', 'yearly'
    pub start_date: String,
    pub end_date: Option<String>,
    pub created_at: String,
}

#[derive(Debug, Clone)]
pub struct NewSpendingTarget {
    pub category_id: i64,
    pub amount: i64,
    pub period: String,
    pub start_date: String,
    pub end_date: Option<String>,
}

} // verus!
