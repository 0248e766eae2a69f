[package]
name = "audio_engine"
version = "0.1.0"
edition = "2021"
publish = false

[dependencies]
serde = { version = "=1.0.229", features = ["derive"] }
symphonia = { version = "=0.5.5", default-features = false, features = ["mp3"] }
