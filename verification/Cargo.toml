[package]
name = "harpoon"
version = "0.1.0"
edition = "2021"
publish = false

[dependencies]
sha3 = "0.10"
hex = "0.4"
base64 = "0.22"
rayon = "1"
anyhow = "1"
serde = { version = "1", features = ["derive"] }
serde_json = "1"
parking_lot = "0.12"
once_cell = "1"
lazy_static = "1.4"
regex = "1"
uuid = { version = "1", features = ["v4"] }
chrono = { version = "0.4", features = ["serde"] }
tokio = { version = "1", features = ["rt-multi-thread", "macros", "time"] }
axum = "0.6"
tower = "0.4"
tower-http = { version = "0.4", features = ["cors", "trace", "timeout"] }
reqwest = { version = "0.11", default-features = false, features = ["json"] }
prometheus = "0.13"
tracing = "0.1"
tracing-subscriber = { version = "0.3", features = ["env-filter"] }
dotenvy = "0.15"
serde_yaml = "0.9"
toml = "0.8"
async-trait = "0.1"
