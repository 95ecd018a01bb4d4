pub mod account;
pub mod category;
pub mod category_rule;
pub mod column_mapping;
pub mod debt;
pub mod spending_target;
pub mod transaction;
