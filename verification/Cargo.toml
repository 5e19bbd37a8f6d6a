[package]
name = "zenoh_hammer"
version = "0.1.0"
edition = "2021"
publish = false

[dependencies]
hex = "=0.4.3"
size_fmt = "=0.1.1"
serde = { version = "=1.0.229", features = ["derive"] }
serde_json = "=1.0.154"
json5 = "=0.4.1"
image = { version = "=0.25.10", default-features = false, features = ["png", "jpeg", "gif", "bmp", "webp"] }
directories = "=5.0.1"
zenoh-keyexpr = "=1.10.2"
uhlc = "0.8"
