[package]
name = "fleet-commander"
version = "0.1.0"
edition = "2021"
publish = false

[dependencies]
anyhow = "*"
axum = "*"
clap = { version = "*", features = ["derive"] }
crossterm = { version = "*", features = ["event-stream"] }
dialoguer = "*"
dirs = "*"
futures-util = "*"
portable-pty = "*"
ratatui = { version = "*", features = ["unstable-rendered-line-info"] }
rmcp = { version = "*", features = ["server", "macros", "transport-streamable-http-server", "transport-io"] }
serde = { version = "*", features = ["derive"] }
serde_json = "*"
serde_yaml = "*"
tokio = { version = "*", features = ["rt-multi-thread", "macros", "sync", "process", "io-util", "net", "time", "fs"] }
tokio-util = "*"
toml = "*"
tracing = "*"
tracing-appender = "*"
tracing-subscriber = { version = "*", features = ["env-filter"] }
vt100 = "*"
