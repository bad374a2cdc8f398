[package]
name = "mirage_host"
version = "0.1.0"
edition = "2021"
publish = false

[dependencies]
anyhow = "*"
chrono = "*"
clap = { version = "*", features = ["derive"] }
evdev = "*"
hostname = "*"
local-ip-address = "*"
mdns-sd = "*"
serde = { version = "*", features = ["derive"] }
shellexpand = "*"
tokio = { version = "*", features = ["rt-multi-thread", "macros", "sync", "time", "signal", "fs"] }
toml = "*"
tracing = "*"
tracing-subscriber = "*"
uuid = { version = "*", features = ["v4"] }
