[package]
name = "basilisk"
version = "0.1.0"
edition = "2021"
publish = false

[dependencies]
unicode-width = "=0.1.14"
unicode-segmentation = "=1.13.3"
regex = "=1.13.1"
flate2 = "=1.1.10"
image = { version = "=0.25.10", default-features = false, features = ["png"] }
serde = { version = "=1.0.229", features = ["derive"] }
serde_json = "=1.0.154"
toml = "=0.8.23"
dirs = "=5.0.1"
thiserror = "=1.0.69"
log = "0.4"
env_logger = { version = "0.11", default-features = false }
clap = { version = "4", features = ["derive"] }
nix = { version = "0.29", features = ["term", "poll", "process", "fs", "ioctl", "signal"] }
libc = "0.2"
fontdue = "0.9"
pollster = "0.3"
bytemuck = { version = "1", features = ["derive"] }
tokio = { version = "1", features = ["rt-multi-thread", "sync", "macros"] }
base64 = "0.22"
