[package]
name = "device-envoy-core"
version = "0.1.0"
edition = "2021"
publish = false

[dependencies]
crc32fast = "*"
serde = { version = "*", features = ["derive"] }
postcard = "*"
embedded-graphics = "*"
heapless = "*"
smart-leds = "*"
time = "*"
embassy-time = "*"
embassy-futures = "*"
embassy-sync = "*"
