[package]
name = "stream-playback"
version = "0.1.0"
edition = "2021"
publish = false

[dependencies]
axum = { version = "0.7", features = ["ws"] }
base64 = "0.22"
clap = { version = "4", features = ["derive"] }
cpal = "0.15"
ringbuf = "0.4"
serde = { version = "1", features = ["derive"] }
serde_json = "1"
subtle = "2"
tempfile = "3"
tokio = { version = "1", features = ["macros", "net", "rt", "signal", "sync", "time"] }
toml = "0.8"
tower-http = { version = "0.6", features = ["limit"] }
