[package]
name = "standalone_tray"
version = "0.1.0"
edition = "2021"
publish = false

[dependencies]
async-channel = "*"
futures-util = "*"
gtk4 = "*"
system-tray = "*"
tokio = { version = "*", features = ["rt-multi-thread", "process", "io-util", "time", "sync"] }
zbus = "*"
