[package]
name = "mandarin_to_pinyin"
version = "0.1.0"
edition = "2021"
publish = false

[dependencies]
bincode = "=2.0.1"
serde = { version = "=1.0.229", features = ["derive"] }
