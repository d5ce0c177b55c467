[package]
name = "player"
version = "0.1.0"
edition = "2021"
publish = false

[dependencies]
m3u8-rs = "6"
url = "2"
ureq = "2"
crossbeam-channel = "0.5"
serde = { version = "1", features = ["derive"] }
serde_json = "1"
chrono = { version = "0.4", features = ["serde"] }
