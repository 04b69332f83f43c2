[package]
name = "karl"
version = "0.1.0"
edition = "2021"
publish = false

[dependencies]
rand = "0.8"
serde = { version = "1", features = ["derive"] }
bincode = "1"
clap = "2"
dirs = "5"
env_logger = "0.11"
log = "0.4"
flate2 = "1"
tar = "0.4"
tokio = { version = "1", features = ["rt-multi-thread", "time"] }
mdns = "3"
futures-util = "0.3"
rocket = { version = "0.5", features = ["json"] }
