[package]
name = "startup_millenium"
version = "0.1.0"
edition = "2021"
publish = false

[dependencies]
serde = { version = "1", features = ["derive"] }
serde_json = "1"
sysinfo = "*"
tokio = { version = "1", features = ["fs", "process", "time", "macros", "rt-multi-thread"] }
