[package]
name = "gpui_driver"
version = "0.1.0"
edition = "2021"
publish = false

[dependencies]
anyhow = "1"
base64 = "0.22"
chrono = { version = "0.4", default-features = false, features = ["clock", "std"] }
clap = { version = "4", features = ["derive"] }
futures = "0.3"
image = { version = "0.25", default-features = false, features = ["png"] }
log = "0.4"
rand = "0.9"
raw-window-handle = "0.6"
serde = { version = "1", features = ["derive"] }
serde_json = "1"
