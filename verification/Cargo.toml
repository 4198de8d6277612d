[package]
name = "ottershipper"
version = "0.1.0"
edition = "2021"
publish = false

[dependencies]
chrono = "*"
rmcp = "*"
schemars = "*"
serde = { version = "*", features = ["derive"] }
serde_json = "*"
sqlx = { version = "*", features = ["sqlite", "runtime-tokio"] }
thiserror = "*"
tokio = { version = "*", features = ["full"] }
toml = "*"
tracing = "*"
tracing-subscriber = { version = "*", features = ["env-filter"] }
uuid = { version = "*", features = ["v4"] }
