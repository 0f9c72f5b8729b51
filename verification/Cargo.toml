[package]
name = "solar_telemetry"
version = "0.1.0"
edition = "2021"
publish = false

[dependencies]
embedded-can = "0.4"
heapless = { version = "0.8", features = ["serde"] }
postcard = "1"
serde = "1"
serialport = { version = "4", default-features = false }
socketcan = { version = "3", default-features = false }
iced = { version = "0.13", default-features = false, features = ["canvas", "tokio", "tiny-skia"] }
