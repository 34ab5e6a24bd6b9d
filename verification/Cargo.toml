[package]
name = "murmur"
version = "0.1.0"
edition = "2021"
publish = false

[dependencies]
ash = "0.37"
chrono = { version = "0.4", default-features = false, features = ["clock", "std"] }
serde = { version = "1", features = ["derive"] }
serde_json = "1"
sysinfo = { version = "0.30", default-features = false }
tokio = { version = "1", features = ["rt", "sync"] }
