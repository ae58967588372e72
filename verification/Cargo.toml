[package]
name = "crabcamera"
version = "0.6.0"
edition = "2021"
publish = false

[dependencies]
openh264 = "=0.9.9"
image = { version = "=0.25.10", default-features = false }
uuid = { version = "=1.29.0", features = ["v4"] }
chrono = { version = "=0.4.45", default-features = false, features = ["clock"] }
tokio = { version = "=1.54.1", features = ["rt-multi-thread", "sync", "time", "macros"] }
lazy_static = "=1.5.1"
serde = { version = "=1.0.229", features = ["derive"] }
thiserror = "=2.0.21"
log = "=0.4.35"
env_logger = { version = "=0.11.11", default-features = false }
bytes = "=1.12.1"
webrtc = "=0.14.0"
webrtc-util = "=0.12.0"
nokhwa = { version = "0.10", default-features = false }
