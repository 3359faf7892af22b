[package]
name = "news_reader"
version = "0.1.0"
edition = "2021"
publish = false

[dependencies]
feed-rs = "*"
chrono = "*"
rusqlite = { version = "*", features = ["bundled"] }
tokio = { version = "*", features = ["rt-multi-thread", "macros", "sync", "time"] }
reqwest = { version = "*", default-features = false }
crossterm = { version = "*", features = ["event-stream"] }
ratatui = "*"
html2text = "*"
open = "*"
clap = { version = "*", features = ["derive"] }
serde = { version = "*", features = ["derive"] }
toml = "*"
directories = "*"
futures = "*"
