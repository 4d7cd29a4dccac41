[package]
name = "sentinelguard_agent"
version = "0.1.0"
edition = "2021"
publish = false

[dependencies]
dashmap = "*"
ring = "*"
chrono = "*"
rusqlite = { version = "*", features = ["bundled"] }
serde = { version = "*", features = ["derive"] }
toml = "*"
tokio = { version = "*", features = ["rt-multi-thread", "macros", "sync", "time", "signal"] }
anyhow = "*"
tracing = "*"
tracing-subscriber = "*"
