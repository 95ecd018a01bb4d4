pub mod statement;
