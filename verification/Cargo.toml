[package]
name = "pocket_runtime"
version = "0.1.0"
edition = "2021"
publish = false

[dependencies]
hex = "0.4"
sha2 = "0.10"
serde = { version = "1", features = ["derive"] }
serde_json = "1"
nix = { version = "0.30", features = ["fs", "ioctl", "process", "signal", "term", "user", "poll"] }
thiserror = "2"
