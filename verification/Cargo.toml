[package]
name = "provider_history"
version = "0.1.0"
edition = "2021"
publish = false

[dependencies]
chrono = "0.4"
dirs = "5"
rusqlite = { version = "0.32", features = ["bundled"] }
serde_json = "1"
urlencoding = "2"
