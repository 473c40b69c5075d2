[package]
name = "order_cache"
version = "0.1.0"
edition = "2021"
publish = false

[dependencies]
moka = { version = "0.12", features = ["sync", "future"] }
serde = { version = "1", features = ["derive"] }
serde_json = "1"
axum = "*"
tokio = { version = "1", features = ["macros", "rt-multi-thread", "net", "sync"] }
tokio-postgres = { version = "*", features = ["with-serde_json-1"] }
bb8-postgres = { version = "*", features = ["with-serde_json-1"] }
chrono = "*"
dotenv = "*"
env_logger = "*"
log = "*"
thiserror = "*"
