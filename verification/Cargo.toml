[package]
name = "deuce"
version = "0.1.0"
edition = "2021"
publish = false

[dependencies]
bytes = "1"
config = "*"
csv = "1"
log = "0.4"
r2d2 = "0.8"
r2d2_postgres = "*"
serde = { version = "1", features = ["derive"] }
serde_json = "1"
