[package]
name = "rust_swift_screencapture"
version = "0.1.0"
edition = "2021"
publish = false

[dependencies]
env_logger = "0.10"
log = "0.4"
swift-bridge = "0.1"
tokio = { version = "1", features = ["macros", "rt", "rt-multi-thread", "sync"] }
