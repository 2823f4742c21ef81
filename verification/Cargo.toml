[package]
name = "iced_layout_inspector"
version = "0.1.0"
edition = "2021"
publish = false

[dependencies]
base64 = "=0.22.1"
image = { version = "=0.25.10", default-features = false, features = ["jpeg"] }
iced_core = "=0.14.0"
tokio = { version = "=1.54.1", features = ["rt", "sync", "time"] }
serde = { version = "=1.0.229", features = ["derive"] }
glob = "=0.3.4"
libc = "=0.2.191"
