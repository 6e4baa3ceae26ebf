[package]
name = "kvcache"
version = "0.1.0"
edition = "2021"
publish = false

[dependencies]
serde_json = "*"
redis = "*"
serde = { version = "*", features = ["derive"] }
anyhow = "*"
thiserror = "*"
async-trait = "*"
