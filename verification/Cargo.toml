[package]
name = "milestone_scheduler"
version = "0.1.0"
edition = "2021"
publish = false

[dependencies]
chrono = "0.4"
rand = "0.8"
rusqlite = { version = "0.31", features = ["bundled"] }
serde_json = "1"
