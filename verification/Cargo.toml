[package]
name = "edex_core"
version = "0.1.0"
edition = "2021"
publish = false

[dependencies]
portable-pty = "*"
tokio = { version = "*", features = ["rt-multi-thread", "sync", "time", "macros"] }
serde = { version = "*", features = ["derive"] }
serde_json = "*"
log = "*"
notify = "*"
sysinfo = "*"
chrono = "*"
