[package]
name = "dgx-pixels-tui"
version = "0.1.0"
edition = "2021"
publish = false

[dependencies]
uuid = { version = "1", features = ["v4"] }
chrono = { version = "0.4", default-features = false, features = ["clock", "std"] }
dashmap = "6"
parking_lot = "0.12"
serde = { version = "1", features = ["derive"] }
rmp-serde = "1"
serde_json = "1"
anyhow = "1"
clap = { version = "4", features = ["derive"] }
crossterm = "0.28"
ratatui = "0.29"
tracing = "0.1"
tracing-subscriber = { version = "0.3", features = ["env-filter"] }
image = { version = "0.25", default-features = false, features = ["png"] }
tempfile = "3"
tokio = { version = "1", features = ["rt-multi-thread", "sync", "time", "macros"] }
