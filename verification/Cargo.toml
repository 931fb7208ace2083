[package]
name = "aboba"
version = "0.1.0"
edition = "2021"
publish = false

[dependencies]
gtk = "0.15"
mp4ameta = "*"
serde = { version = "1", features = ["derive"] }
serde_json = "1"
directories = "*"
ffmpeg-next = "*"
ffmpeg-decoder = "*"
rodio = "0.11"
