[package]
name = "vramancer"
version = "0.1.0"
edition = "2021"
publish = false

[dependencies]
regex = "1"
fuzzy-matcher = "0.3"
serde = { version = "1", features = ["derive"] }
serde_json = "1"
sysinfo = "0.30"
clap = { version = "4", features = ["derive"] }
crossterm = "0.27"
ratatui = "0.26"
tokio = { version = "1", features = ["macros", "rt-multi-thread"] }
