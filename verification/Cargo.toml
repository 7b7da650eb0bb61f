[package]
name = "dailycraft"
version = "0.1.0"
edition = "2021"
publish = false

[dependencies]
chrono = "*"
dirs = "*"
uuid = { version = "*", features = ["v4"] }
serde = { version = "*", features = ["derive"] }
serde_json = "*"
reqwest = { version = "*", default-features = false, features = ["stream"] }
futures-util = "*"
tokio = { version = "*", features = ["rt-multi-thread", "macros"] }
rusqlite = { version = "*", features = ["bundled"] }
