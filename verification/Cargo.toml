[package]
name = "exchange_sim"
version = "0.1.0"
edition = "2021"
publish = false

[dependencies]
actix-cors = "=0.7.2"
actix-web = { version = "=4.18.1", default-features = false, features = ["macros"] }
bcrypt = "=0.15.1"
chrono = { version = "=0.4.45", features = ["serde"] }
clickhouse = { version = "=0.12.2", default-features = false }
dashmap = "=6.2.1"
dotenvy = "=0.15.7"
futures-util = "=0.3.34"
jsonwebtoken = { version = "=9.3.1", default-features = false }
rust_decimal = "=1.43.0"
serde = { version = "=1.0.229", features = ["derive"] }
serde_json = { version = "=1.0.154", features = ["preserve_order"] }
thiserror = "=1.0.69"
tokio = { version = "=1.54.1", features = ["full"] }
tokio-tungstenite = "=0.24.0"
tokio-util = "=0.7.20"
tracing = "=0.1.44"
tracing-subscriber = { version = "=0.3.23", features = ["env-filter"] }
uuid = { version = "=1.29.0", features = ["v4"] }
