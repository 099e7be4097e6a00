[package]
name = "clashtui"
version = "0.1.0"
edition = "2021"
publish = false

[dependencies]
anyhow = "1"
crossterm = { version = "0.28", features = ["event-stream"] }
futures-util = "0.3"
log = "0.4"
minreq = "2"
ratatui = "0.29"
serde = { version = "1", features = ["derive"] }
serde_json = "1"
serde_yaml = "0.9"
serde_yml = "*"
tokio = { version = "1", features = ["sync", "time", "macros", "rt-multi-thread"] }
