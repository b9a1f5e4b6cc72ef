[package]
name = "biliup"
version = "0.1.0"
edition = "2021"
publish = false

[dependencies]
anyhow = "*"
async-std = "*"
async-stream = "*"
async-trait = "*"
bytes = "*"
futures = "*"
reqwest = { version = "*", default-features = false, features = ["stream"] }
reqwest-middleware = "*"
reqwest-retry = "*"
serde = { version = "*", features = ["derive"] }
serde_json = "*"
serde_yaml = "*"
tokio = { version = "*", features = ["rt", "macros"] }
