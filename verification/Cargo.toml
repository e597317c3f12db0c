[package]
name = "cliphist_ui"
version = "0.1.1"
edition = "2021"
publish = false

[dependencies]
anyhow = "1"
async-channel = "2"
gtk4 = "*"
gtk4-layer-shell = "*"
image = { version = "0.25", default-features = false, features = ["png", "jpeg", "gif", "webp", "bmp", "tiff"] }
json5 = "0.4"
serde = { version = "1", features = ["derive"] }
serde_json = "1"
signal-hook = "0.3"
tracing = "0.1"
tracing-subscriber = { version = "0.3", features = ["env-filter"] }
