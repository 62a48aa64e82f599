[package]
name = "claustre"
version = "0.1.0"
edition = "2021"
publish = false

[dependencies]
anyhow = "1"
chrono = "0.4"
clap = { version = "4", features = ["derive"] }
crossterm = "*"
dirs = "*"
libc = "0.2"
portable-pty = "*"
ratatui = "0.29"
regex = "1"
rusqlite = { version = "*", features = ["bundled"] }
serde = { version = "1", features = ["derive"] }
serde_json = "1"
tokio = { version = "1", features = ["rt-multi-thread", "macros", "net", "io-util", "sync", "time", "process", "io-std"] }
toml = "0.8"
tracing = "0.1"
uuid = { version = "1", features = ["v4"] }
vt100 = "0.15"
