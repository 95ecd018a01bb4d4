use vstd::prelude::*;
use crate::constants::{MAX_INTEREST_RATE, MIN_INTEREST_RATE};
use crate::errors::DebtError;

verus! {

/// One liability. Money fields are in millionths of a currency unit, the rate is the annual
/// percentage in millionths of a percentage point.
#[derive(Debug, Clone)]
pub struct Debt {
    pub id: i64,
    pub name: String,
    pub balance: i64,
    pub original_balance: i64,
    pub interest_rate: i64,  // Annual percentage
    pub min_payment: i64,
    pub created_at: String,
    pub updated_at: String,
}

impl Debt {
    /// What the planner asks of a debt: a balance and a minimum payment that are not negative,
    /// and an annual rate between 0% and 100%.
    pub open spec fn is_plannable(&self) -> bool {
        &&& self.balance >= 0
        &&& self.min_payment >= 0
        &&& MIN_INTEREST_RATE <= self.interest_rate <= MAX_INTEREST_RATE
    }

    /// Tells whether the planner accepts this debt.
    pub fn check_plannable(&self) -> (ok: bool)
        ensures
            ok == self.is_plannable(),
    {
        self.balance >= 0 && self.min_payment >= 0 && MIN_INTEREST_RATE <= self.interest_rate
            && self.interest_rate <= MAX_INTEREST_RATE
    }
}

#[derive(Debug, Clone)]
pub struct NewDebt {
    pub name: String,
    pub balance: i64,
    pub interest_rate: i64,
    pub min_payment: i64,
}

#[derive(Debug, Clone)]
pub struct DebtPayment {
    pub id: i64,
    pub debt_id: i64,
    pub amount: i64,
    pub date: String,
    pub plan_id: Option<i64>,
    pub created_at: String,
}

/// How the budget left after the minimum payments is directed.
#[derive(Debug, Clone, Copy, PartialEq, Eq, Structural)]
pub enum PayoffStrategy {
    /// Highest interest rate first; the order is fixed before the first month.
    Avalanche,
    /// Lowest remaining balance first; the order is renewed every month.
    Snowball,
}

impl PayoffStrategy {
    /// The name of the strategy, as it is stored and shown.
    pub open spec fn text(self) -> Seq<char> {
        match self {
            PayoffStrategy::Avalanche => "avalanche"@,
            PayoffStrategy::Snowball => "snowball"@,
        }
    }

    /// The strategy that a name stands for, if it is the name of one.
    pub open spec fn named(name: Seq<char>) -> Option<PayoffStrategy> {
        if name == "avalanche"@ {
            Some(PayoffStrategy::Avalanche)
        } else if name == "snowball"@ {
            Some(PayoffStrategy::Snowball)
        } else {
            None
        }
    }

    /// The name of the strategy.
    pub fn name(&self) -> (name: String)
        ensures
            name@ == self.text(),
    {
        match self {
            PayoffStrategy::Avalanche => "avalanche".to_owned(),
            PayoffStrategy::Snowball => "snowball".to_owned(),
        }
    }

    /// Reads a strategy from its name; any other text is an invalid strategy.
    pub fn parse(name: &str) -> (strategy: Result<PayoffStrategy, DebtError>)
        ensures
            match PayoffStrategy::named(name@) {
                Some(s) => strategy == Ok::<PayoffStrategy, DebtError>(s),
                None => strategy matches Err(DebtError::InvalidStrategy(given)) && given@ == name@,
            },
    {
        let given = name.to_owned();
        if given == "avalanche".to_owned() {
            Ok(PayoffStrategy::Avalanche)
        } else if given == "snowball".to_owned() {
            Ok(PayoffStrategy::Snowball)
        } else {
            Err(DebtError::InvalidStrategy(given))
        }
    }
}

#[derive(Debug, Clone)]
pub struct DebtPlan {
    pub id: i64,
    pub strategy: String,
    pub monthly_amount: i64,
    pub created_at: String,
    pub updated_at: String,
}

} // verus!
