[package]
name = "rio-rs"
version = "0.1.0"
edition = "2021"
publish = false

[dependencies]
chrono = { version = "0.4", default-features = false, features = ["clock", "std", "serde"] }
bincode = "1"
rand = "0.8"
serde = { version = "1", features = ["derive"] }
serde_json = "1"
thiserror = "1"
tokio = { version = "1", features = ["full"] }
tokio-util = { version = "0.7", features = ["codec"] }
tokio-stream = { version = "0.1", features = ["sync"] }
futures = "0.3"
async-trait = "0.1"
async-stream = "0.3"
tower = { version = "0.4", features = ["util"] }
dashmap = "5"
lru = "0.12"
papaya = "*"
log = "0.4"
tracing = "0.1"
bb8 = "*"
bb8-redis = "*"
sqlx = { version = "0.8", default-features = false, features = ["runtime-tokio", "sqlite", "postgres", "chrono", "macros"] }
axum = { version = "0.7", default-features = false, features = ["http1", "json", "tokio"] }
reqwest = { version = "0.12", default-features = false, features = ["json"] }
derive_builder = "*"
state = "*"
