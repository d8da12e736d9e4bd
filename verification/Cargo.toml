[package]
name = "camcoder"
version = "0.1.0"
edition = "2021"
publish = false

[dependencies]
bytes = "0.4"
chrono = "0.4"
ffmpeg-sys = "*"
futures = "0.1"
hyper = "0.11"
libc = "0.2"
magick_rust = "*"
tokio-core = "0.1"
tokio-timer = "0.1"
