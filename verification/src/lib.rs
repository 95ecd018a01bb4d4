pub mod calendar;
pub mod commands;
pub mod constants;
pub mod db;
pub mod errors;
pub mod models;
pub mod services;
pub mod text;
pub mod utils;
