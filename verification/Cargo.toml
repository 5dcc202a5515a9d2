[package]
name = "prowl"
version = "0.1.0"
edition = "2021"
publish = false

[dependencies]
anyhow = "1"
clap = { version = "4", features = ["derive"] }
crossterm = { version = "*", features = ["event-stream"] }
futures = "0.3"
procfs = "*"
ratatui = "*"
tokio = { version = "1", features = ["macros", "rt", "sync", "time"] }
