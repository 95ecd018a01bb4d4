pub mod account_commands;
pub mod category_commands;
pub mod category_rule_commands;
pub mod debt_commands;
pub mod csv_commands;
pub mod transaction_commands;
pub mod analytics_commands;
