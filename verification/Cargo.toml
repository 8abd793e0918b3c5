[package]
name = "agent_deck"
version = "0.1.0"
edition = "2021"
publish = false

[dependencies]
anyhow = "*"
arboard = "*"
crossterm = "*"
dirs = "*"
ignore = "*"
ratatui = "*"
tokio = { version = "*", features = ["macros", "rt-multi-thread", "process", "fs", "sync", "time"] }
tracing = "*"
tracing-subscriber = { version = "*", features = ["env-filter"] }
