[package]
name = "zed_http"
version = "0.1.0"
edition = "2021"
publish = false

[dependencies]
dashmap = "6"
chrono = "0.4"
serde = { version = "1", features = ["derive"] }
serde_json = "1"
thiserror = "1"
tokio = { version = "1", features = ["process", "fs", "io-util", "rt-multi-thread", "macros", "sync", "io-std"] }
clap = { version = "4.5", features = ["derive"] }
anyhow = "1"
tower-lsp = "0.20"
dirs = "*"
zed_extension_api = "*"
