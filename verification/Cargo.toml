[package]
name = "niri_workspaces"
version = "0.1.0"
edition = "2021"
publish = false

[dependencies]
tokio = { version = "*", features = ["sync", "net", "io-util", "rt", "macros"] }
tracing = "*"
niri-ipc = "*"
serde_json = "*"
