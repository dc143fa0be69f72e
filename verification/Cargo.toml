[package]
name = "next_tablet_driver"
version = "0.1.0"
edition = "2021"
publish = false

[dependencies]
uuid = { version = "=1.29.0", features = ["v4"] }
serde = { version = "=1.0.229", features = ["derive"] }
serde_json = "=1.0.154"
log = "=0.4.35"
directories = "=6.0.0"
chrono = "=0.4.45"
crossbeam-channel = "=0.5.17"
interprocess = "=2.4.7"
nix = { version = "=0.31.3", features = ["fs", "mman"] }
tungstenite = "*"
ureq = { version = "2", default-features = false, features = ["json"] }
