[package]
name = "sandboxing"
version = "0.1.0"
edition = "2021"
publish = false

[dependencies]
dunce = "1"
tokio = { version = "1", features = ["process", "rt-multi-thread", "macros", "io-util"] }
libc = "0.2"
serde = { version = "1", features = ["derive"] }
serde_json = "1"

[dev-dependencies]
tempfile = "3"
