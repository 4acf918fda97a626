[package]
name = "rm_cloudsync"
version = "0.1.0"
edition = "2021"
publish = false

[dependencies]
dashmap = "*"
uuid = "*"
serde = { version = "*", features = ["derive"] }
serde_json = "*"
notify = "*"
