[package]
name = "accounts_solution"
version = "0.1.0"
edition = "2021"
publish = false

[dependencies]
rust_decimal = { version = "1", features = ["serde"] }
iddqd = "*"
serde = { version = "1", features = ["derive"] }
csv = "1"
eyre = "0.6"
log = "0.4"
env_logger = "*"
