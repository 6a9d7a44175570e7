[package]
name = "crew"
version = "0.1.0"
edition = "2021"
publish = false

[dependencies]
chrono = { version = "0.4", features = ["serde"] }
clap = { version = "4", features = ["derive"] }
eyre = "0.6"
mimalloc = "*"
ratatui = "0.29"
serde = { version = "1", features = ["derive"] }
serde_json = "1"
tokio = { version = "1", features = ["rt-multi-thread", "macros", "signal", "time", "net"] }
toml = "0.8"
tracing = "0.1"
ureq = { version = "2", features = ["json"] }
uuid = { version = "1", features = ["v4", "serde"] }
