[package]
name = "praxis_responses"
version = "0.1.0"
edition = "2021"
publish = false

[dependencies]
async-trait = "0.1"
bytes = "1"
dashmap = "6"
http = "1"
metrics = "*"
serde_json = "1"
serde_yaml = "0.9"
sqlx = { version = "0.8", default-features = false, features = ["runtime-tokio", "sqlite"] }
tracing = "0.1"

[dev-dependencies]
tokio = { version = "1", features = ["rt", "time"] }
