[package]
name = "report_import"
version = "0.1.0"
edition = "2021"
publish = false

[dependencies]
csv = "1"
serde = { version = "1", features = ["derive"] }
sqlx = { version = "0.8", default-features = false, features = ["sqlite", "runtime-tokio", "derive"] }
tokio = { version = "1", features = ["fs", "io-util", "rt", "macros"] }
