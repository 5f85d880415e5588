[package]
name = "holodeck"
version = "0.1.0"
edition = "2021"
publish = false

[dependencies]
dirs = "*"
log = "*"
reqwest = { version = "*", default-features = false, features = ["json"] }
ron = "*"
serde = { version = "*", features = ["derive"] }
serde_json = "*"
tokio = { version = "*", default-features = false, features = ["rt", "time", "fs", "sync", "macros"] }
