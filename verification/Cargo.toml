[package]
name = "pixelflut"
version = "0.1.0"
edition = "2021"
publish = false

[dependencies]
rand = "=0.8.8"
clap = { version = "=3.2.25", features = ["derive"] }
image = { version = "=0.24.9", default-features = false, features = ["png", "jpeg", "gif", "bmp"] }
tokio = { version = "=1.54.1", features = ["net", "io-util", "rt-multi-thread", "signal", "time"] }
