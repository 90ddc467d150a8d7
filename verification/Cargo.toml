[package]
name = "stock_backtest"
version = "0.1.0"
edition = "2021"
publish = false

[dependencies]
chrono = { version = "=0.4.45", default-features = false, features = ["std"] }
csv = "=1.4.0"
log = "=0.4.34"
serde = { version = "=1.0.229", features = ["derive"] }
simple-log = "=1.6.0"
toml = "=0.5.11"
