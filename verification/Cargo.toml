[package]
name = "rust_trends"
version = "0.1.0"
edition = "2021"
publish = false

[dependencies]
chrono = { version = "0.4", default-features = false, features = ["clock", "std"] }
hyper = "0.10"
rusqlite = "*"
serde_json = "1"
