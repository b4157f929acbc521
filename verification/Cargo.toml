[package]
name = "ferrum"
version = "0.1.0"
edition = "2021"
publish = false

[dependencies]
image = { version = "0.25", default-features = false, features = ["jpeg"] }
serde = { version = "1", features = ["derive"] }
bincode = { version = "2", features = ["serde"] }
cgmath = "0.18"
anyhow = "1"
thiserror = "*"
log = "0.4"
dotenvy = "*"
futures-util = "*"
tokio = { version = "1", features = ["rt-multi-thread", "macros", "time"] }
tokio-tungstenite = "*"
rppal = "*"
linux-embedded-hal = "*"
tsl2591-rs = "*"
