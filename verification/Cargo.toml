[package]
name = "uchi_pulse"
version = "0.1.0"
edition = "2021"
publish = false

[dependencies]
serde = { version = "1", features = ["derive"] }
serde_json = "1"
serde-json-core = "0.6"
heapless = { version = "0.8", features = ["serde"] }
rusqlite = { version = "0.32", features = ["bundled"] }
serialport = { version = "4", default-features = false }
