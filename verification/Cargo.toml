[package]
name = "eleel"
version = "0.1.0"
edition = "2021"
publish = false

[dependencies]
lru = "0.12"
keccak-hash = "0.10"
ethereum-types = "0.14"
jwt = "0.16"
hmac = "0.12"
sha2 = "0.10"
hex = "0.4"
serde = { version = "1", features = ["derive"] }
serde_json = "1"
tokio = { version = "1", features = ["full"] }
axum = "0.7"
clap = { version = "4", features = ["derive"] }
tracing = "0.1"
tracing-subscriber = "0.3"
