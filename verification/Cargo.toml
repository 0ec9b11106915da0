[package]
name = "keysync"
version = "0.1.0"
edition = "2021"
publish = false

[dependencies]
anyhow = "1"
bitcode = { version = "0.6", features = ["serde"] }
clap = { version = "4", features = ["derive"] }
evdev = "0.13"
hostname = "0.4"
rand = "0.9"
regex = "1"
serde = { version = "1", features = ["derive"] }
serde_norway = "0.9"
tracing = "0.1"
tracing-subscriber = { version = "0.3", features = ["env-filter"] }
