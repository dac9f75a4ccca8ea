[package]
name = "gitbatch"
version = "0.1.0"
edition = "2021"
publish = false

[dependencies]
clap = { version = "4", features = ["derive"] }
crossterm = "*"
directories = "*"
futures = "0.3"
ratatui = "*"
regex = "1"
serde = { version = "1", features = ["derive"] }
serde_yaml = "0.9"
thiserror = "*"
tokio = { version = "1", features = ["macros", "process", "rt-multi-thread", "sync", "time"] }
unicode-width = "*"
