[package]
name = "lan-mouse"
version = "0.10.0"
edition = "2021"
publish = false

[dependencies]
async-trait = "0.1"
evdev = "0.13"
futures = "0.3"
local-channel = "0.1"
log = "0.4"
tokio = { version = "1", features = ["macros", "process", "rt", "sync", "time"] }
tokio-util = "0.7"
