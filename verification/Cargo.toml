[package]
name = "radiochat"
version = "0.1.0"
edition = "2021"
publish = false

[dependencies]
aes-gcm = "=0.11.1"
anyhow = "*"
audiopus = "=0.2.0"
cpal = "=0.18.2"
dirs = "*"
hex = "=0.4.3"
rand = "=0.10.3"
serde = { version = "*", features = ["derive"] }
serde_json = "*"
tokio = { version = "*", features = ["macros", "rt-multi-thread", "sync", "time"] }
toml = "*"
webrtc = "=0.14.0"
