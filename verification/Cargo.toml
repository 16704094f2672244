[package]
name = "sharinflame"
version = "0.1.0"
edition = "2021"
publish = false

[dependencies]
base64 = "0.22"
hmac = "0.12"
sha2 = "0.10"
pbkdf2 = "0.12"
hex = "0.4"
rand = "0.9"
chrono = "0.4"
regex = "1"
unicode-normalization = "0.1"
percent-encoding = "2"
axum = "0.8"
serde = { version = "1", features = ["derive"] }
serde_json = "1"
serde_with = "3"
validator = { version = "0.20", features = ["derive"] }
tokio = { version = "1", features = ["macros", "rt-multi-thread", "net", "time", "sync"] }
tokio-postgres = "0.7"
deadpool-postgres = "0.14"
fred = "10"
reqwest = { version = "0.12", default-features = false }
once_cell = "1"
thiserror = "2"
tracing = "0.1"
tracing-subscriber = "0.3"
tower = "0.5"
tower-http = { version = "0.6", features = ["cors", "catch-panic"] }
dotenvy = "0.15"
