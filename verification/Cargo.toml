[package]
name = "heimdall"
version = "0.1.0"
edition = "2021"
publish = false

[dependencies]
anyhow = "=1.0.104"
bs58 = "=0.5.1"
dotenv = "=0.15.0"
futures = "=0.3.34"
prost = "0.13"
ratatui = "0.29"
serde = { version = "=1.0.229", features = ["derive"] }
serde_json = "=1.0.154"
spl-token = "=9.0.0"
sqlx = { version = "=0.8.6", default-features = false, features = ["postgres", "runtime-tokio"] }
tokio = { version = "=1.54.1", features = ["macros", "rt-multi-thread", "sync"] }
tokio-stream = "=0.1.19"
tonic = "0.12"
