[package]
name = "zm_streaming"
version = "0.1.0"
edition = "2021"
publish = false

[dependencies]
bytes = "=1.12.1"
chrono = "=0.4.45"
dashmap = "=6.2.1"
ffmpeg-next = "=9.0.0"
interceptor = "=0.17.2"
libc = "=0.2.191"
serde = { version = "=1.0.229", features = ["derive"] }
serde_json = "=1.0.154"
thiserror = "=2.0.21"
tokio = { version = "=1.54.1", features = ["full"] }
tracing = "=0.1.44"
utoipa = "=6.0.0"
uuid = { version = "=1.29.0", features = ["v4"] }
webrtc = "=0.17.2"
webrtc-media = "=0.17.2"
