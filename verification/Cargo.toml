[package]
name = "sandbox-toolkit"
version = "0.1.0"
edition = "2021"
publish = false

[dependencies]
percent-encoding = "2"
bytes = "1"
ropey = "1"
sha1 = "0.10"
base64 = "0.22"
serde = { version = "1", features = ["derive"] }
serde_json = "1"
tokio = { version = "1", features = ["full"] }
tokio-stream = "0.1"
tokio-util = { version = "0.7", features = ["io"] }
axum = { version = "0.8", features = ["ws"] }
clap = { version = "4", features = ["derive", "env"] }
libc = "0.2"
tar = "0.4"
flate2 = "1"
globset = "0.4"
chrono = "0.4"
mime_guess = "2"
blake3 = "1"
zstd = "0.13"
portable-pty = "*"
agent-plugins = "*"
