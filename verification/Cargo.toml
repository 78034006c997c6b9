[package]
name = "gateway"
version = "0.1.0"
edition = "2021"
publish = false

[dependencies]
jsonwebtoken = "9"
serde = { version = "1", features = ["derive"] }
serde_json = { version = "1", features = ["raw_value"] }
sled = "0.34"
rust-argon2 = "*"
rand = "0.8"
hyper = { version = "0.14", features = ["full"] }
tokio = { version = "1", features = ["full"] }
async-std = "1"
futures = "0.3"
bytes = "1"
once_cell = "1"
tarpc = { version = "*", features = ["full"] }
tokio-serde = { version = "*", features = ["json"] }
