[package]
name = "sori"
version = "0.1.0"
edition = "2021"
publish = false

[dependencies]
anyhow = "1"
chrono = { version = "0.4", features = ["serde"] }
cidre = { version = "*", default-features = false }
cpal = "*"
crossbeam-queue = "0.3"
fs2 = "0.4"
libc = "0.2"
objc2 = "*"
objc2-core-audio = "*"
objc2-core-audio-types = "*"
objc2-core-foundation = "*"
objc2-foundation = "*"
serde = { version = "1", features = ["derive"] }
serde_json = "1"
tokio = { version = "1", features = ["rt", "net", "io-util", "sync", "time", "macros"] }
tracing = "0.1"
tracing-subscriber = "0.3"
