[package]
name = "sbar"
version = "0.1.0"
edition = "2021"
publish = false

[dependencies]
chrono = "*"
env_logger = "*"
futures = "*"
getopts = "*"
log = "*"
serde = { version = "*", features = ["derive"] }
serde_yaml = "*"
signal-hook = "*"
signal-hook-tokio = { version = "*", features = ["futures-v0_3"] }
sysinfo = "*"
tokio = { version = "*", features = ["rt", "rt-multi-thread", "macros", "time", "fs", "sync"] }
x11 = "*"
