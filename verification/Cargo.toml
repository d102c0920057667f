[package]
name = "tanxium"
version = "0.1.0"
edition = "2021"
publish = false

[dependencies]
crossbeam-channel = "*"
uuid = { version = "*", features = ["v4"] }
tokio = { version = "*", features = ["rt", "sync", "time", "macros"] }
serde = { version = "*", features = ["derive"] }
serde_json = "*"
ureq = "*"
mailin-embedded = "*"
