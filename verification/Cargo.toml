[package]
name = "polymarket"
version = "0.1.0"
edition = "2021"
publish = false

[dependencies]
rust_decimal = "=1.43.0"
uuid = { version = "=1.29.0", features = ["v4", "serde"] }
chrono = { version = "=0.4.45", features = ["serde"] }
argon2 = "=0.5.3"
validator = "=0.18.1"
rand = "=0.8.8"
serde = { version = "=1.0.229", features = ["derive"] }
serde_json = "=1.0.154"
jsonwebtoken = "=9.3.1"
tokio = { version = "=1.54.1", features = ["full"] }
async-nats = "=0.51.0"
futures = "=0.3.34"
tokio-tungstenite = "=0.30.0"
axum = "0.8"
axum-extra = { version = "0.10", features = ["cookie"] }
tower-http = { version = "0.6", features = ["cors"] }
sqlx = { version = "0.8", default-features = false, features = ["postgres", "runtime-tokio", "macros", "uuid", "chrono", "rust_decimal"] }
redis = { version = "*", features = ["tokio-comp"] }
deadpool-redis = "*"
lettre = "*"
dotenv = "0.15"
async-trait = "0.1"
serde_repr = "0.1"
time = "0.3"
clickhouse = "*"
rdkafka = "*"
