[package]
name = "pgblade"
version = "0.1.0"
edition = "2021"
publish = false

[dependencies]
ropey = "1"
serde = { version = "1", features = ["derive"] }
tokio = { version = "1", features = ["rt-multi-thread"] }
tokio-postgres = "0.7"
tracing = "0.1"
tracing-subscriber = { version = "0.3", features = ["env-filter"] }
uuid = { version = "1", features = ["v4"] }
chrono = "0.4"
async-trait = "0.1"
