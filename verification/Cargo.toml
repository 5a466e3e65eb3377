[package]
name = "pgimporter"
version = "0.1.0"
edition = "2021"
publish = false

[dependencies]
chrono = "=0.4.45"
rust_decimal = { version = "=1.43.0", features = ["db-postgres"] }
postgres = "=0.19.14"
clap = { version = "=3.2.25", features = ["derive"] }
dialoguer = "=0.10.4"
indicatif = "0.17"
serde = { version = "=1.0.229", features = ["derive"] }
serde_yaml = "=0.9.34"
log = "=0.4.34"
simple-logging = "=2.0.2"
resolve = "=0.2.0"
