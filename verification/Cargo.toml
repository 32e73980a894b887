[package]
name = "aris-render"
version = "0.1.0"
edition = "2021"
publish = false

[dependencies]
png = "0.18.1"
url = "2.5.8"
image = { version = "0.25.10", default-features = false, features = ["png", "ico", "jpeg", "gif", "bmp", "webp"] }
libc = "0.2.191"
anyhow = "1.0.104"
tracing = "0.1.44"
keyboard-types = "0.8.3"
winit = "0.30.13"
softbuffer = "0.4.8"
