[package]
name = "audio_fetch"
version = "0.1.0"
edition = "2021"
publish = false

[dependencies]
futures-util = "0.3"
hyper = { version = "0.14", features = ["client", "http1", "http2", "tcp"] }
log = "0.4"
tempfile = "3"
thiserror = "1.0"
tokio = { version = "1", features = ["sync"] }
