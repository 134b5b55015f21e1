[package]
name = "rtsp_video_streamer"
version = "0.1.0"
edition = "2021"
publish = false

[dependencies]
anyhow = "=1.0.104"
bytes = "=1.12.1"
clap = { version = "=4.6.7", features = ["derive"] }
crossbeam-channel = "=0.5.17"
eframe = { version = "0.24", default-features = false, features = ["glow", "wayland"] }
image = { version = "=0.24.9", default-features = false, features = ["jpeg"] }
rand = "=0.8.8"
tokio = { version = "=1.54.1", features = ["io-util", "macros", "net", "rt-multi-thread", "sync", "time"] }
tracing = "=0.1.44"
tracing-subscriber = "=0.3.23"
