[package]
name = "cowatcher"
version = "0.1.0"
edition = "2021"
publish = false

[dependencies]
serde = { version = "=1.0.229", features = ["derive"] }
serde_json = "=1.0.154"
getrandom = "=0.3.4"
jpeg-encoder = "=0.7.1"
zune-jpeg = "=0.5.15"
openh264 = "=0.9.9"
cpal = "=0.18.2"
base64 = "0.22"
