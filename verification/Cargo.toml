[package]
name = "kokoro_tts"
version = "0.1.0"
edition = "2021"
publish = false

[dependencies]
bincode = "=2.0.1"
ort = { version = "=2.0.0-rc.15", default-features = false, features = ["std", "load-dynamic", "cuda"] }
parking_lot = "=0.12.5"
tokio = { version = "=1.54.1", features = ["fs", "sync", "rt", "macros"] }
