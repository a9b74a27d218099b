[package]
name = "marketview"
version = "0.1.0"
edition = "2021"
publish = false

[dependencies]
chrono = "=0.4.45"
futures = "=0.3.34"
iced = { version = "=0.14.0", default-features = false, features = ["advanced", "canvas", "thread-pool", "tiny-skia", "x11"] }
iced_core = { version = "=0.14.0", features = ["advanced"] }
log = "=0.4.35"
reqwest = { version = "=0.12.28", default-features = false }
rustc-hash = "=2.1.3"
serde = { version = "=1.0.229", features = ["derive"] }
serde_json = "=1.0.154"
sonic-rs = "=0.5.10"
