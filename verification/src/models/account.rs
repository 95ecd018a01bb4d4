use vstd::prelude::*;

verus! {

#[derive(Debug, Clone, Copy, PartialEq, Eq, Structural)]
pub enum AccountType {
    Checking,
    Savings,
    CreditCard,
}

impl AccountType {
    /// The name under which the type is stored.
    pub open spec fn text(self) -> Seq<char> {
        match self {
            AccountType::Checking => "checking"@,
            AccountType::Savings => "savings"@,
            AccountType::CreditCard => "credit_card"@,
        }
    }

    /// The name under which the type is stored.
    pub fn name(&self) -> (name: String)
        ensures
            name@ == self.text(),
    {
        match self {
            AccountType::Checking => "checking".to_owned(),
            AccountType::Savings => "savings".to_owned(),
            AccountType::CreditCard => "credit_card".to_owned(),
        }
    }
}

/// An account as it is stored. The balance is in millionths of a currency unit.
#[derive(Debug, Clone)]
pub struct Account {
    pub id: i64,
    pub name: String,
    pub account_type: String,
    pub balance: i64,
    pub created_at: String,
    pub updated_at: String,
}

#[derive(Debug, Clone)]
pub struct NewAccount {
    pub name: String,
    pub account_type: AccountType,
    pub initial_balance: i64,
}

/// A change to an account: the fields that are given are written, the others are kept.
#[derive(Debug, Clone)]
pub struct UpdateAccount {
    pub id: i64,
    pub name: Option<String>,
    pub account_type: Option<AccountType>,
    pub balance: Option<i64>,
}

} // verus!
