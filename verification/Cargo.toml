[package]
name = "budget_balancer"
version = "0.1.0"
edition = "2021"
publish = false

[dependencies]
chrono = "0.4"
csv = "1"
sha2 = "0.10"
serde = { version = "1", features = ["derive"] }
serde_json = "1"
thiserror = "1"
tracing = "0.1"
once_cell = "1"
dirs = "*"
sqlx = { version = "0.8", features = ["runtime-tokio", "sqlite"] }
rusqlite = "*"
