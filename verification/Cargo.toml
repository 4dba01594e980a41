[package]
name = "query_engine"
version = "0.1.0"
edition = "2021"
publish = false

[dependencies]
serde = { version = "1", features = ["derive"] }
serde_json = "1"
thiserror = "1"
tokio = { version = "1", features = ["macros", "rt-multi-thread"] }
axum = "0.7"
gcp-bigquery-client = "*"
prometheus = "*"
tracing = "0.1"
bytes = "1"
indexmap = "2"
smol_str = "*"
enum-iterator = "*"
schemars = "0.8"
