pub mod summation;
pub mod interest_calculator;
pub mod payoff_model;
pub mod payoff_lemmas;
pub mod payoff_laws;
pub mod payoff_simulator;
pub mod avalanche_calculator;
pub mod snowball_calculator;
pub mod payment_scheduler;
pub mod amount_parser;
pub mod csv_parser;
pub mod categorizer;
pub mod duplicate_detector;
pub mod transaction_importer;
pub mod spending_aggregator;
pub mod target_tracker;
pub mod trends_calculator;
