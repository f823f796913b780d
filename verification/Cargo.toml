[package]
name = "flovenet"
version = "0.1.0"
edition = "2021"
publish = false

[dependencies]
argon2 = "0.5"
hex = "0.4"
jsonwebtoken = "9"
serde = { version = "1", features = ["derive"] }
serde_json = { version = "1", features = ["preserve_order"] }
uuid = { version = "1", features = ["v4"] }
rand = "0.8"
chrono = { version = "0.4", features = ["serde"] }
clap = { version = "4", features = ["derive"] }
tokio = { version = "1", features = ["full"] }
tracing = "0.1"
tracing-subscriber = { version = "0.3", features = ["env-filter"] }
anyhow = "1"
thiserror = "2"
ed25519-dalek = { version = "2", features = ["rand_core"] }
axum = "0.8"
tower-http = { version = "0.6", features = ["cors"] }
async-graphql = "7"
async-stream = "0.3"
futures = "0.3"
async-trait = "0.1"
prometheus = "0.13"
rust-embed = "8"
cid = "0.11"
libp2p = { version = "0.54", features = ["gossipsub"] }
