[package]
name = "ddbcore"
version = "0.1.0"
edition = "2021"
publish = false

[dependencies]
async-stream = "0.3"
async-trait = "0.1"
chrono = { version = "=0.4.45", features = ["serde"] }
futures = "0.3"
futures-core = "0.3"
rust_decimal = { version = "=1.43.0", features = ["serde"] }
serde = { version = "=1.0.229", features = ["derive"] }
serde_json = { version = "=1.0.154", features = ["float_roundtrip", "unbounded_depth"] }
sqlx = { version = "=0.8.6", default-features = false, features = ["runtime-tokio", "tls-rustls", "postgres", "mysql", "chrono", "uuid", "rust_decimal", "json"] }
thiserror = "2"
uuid = { version = "=1.29.0", features = ["v4", "serde"] }
