[package]
name = "simple_webrtc_channel"
version = "0.1.0"
edition = "2021"
publish = false

[dependencies]
tokio = { version = "=1.54.1", features = ["rt-multi-thread", "sync", "net", "time"] }
webrtc = "=0.12.0"
tiny_http = "=0.12.0"
ehttp = "=0.7.2"
