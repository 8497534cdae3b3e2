[package]
name = "spca561"
version = "0.1.0"
edition = "2021"
publish = false

[dependencies]
libc = "=0.2.191"
libusb1-sys = { version = "=0.7.0", features = ["vendored"] }
rusb = { version = "=0.9.4", features = ["vendored"] }
minifb = { version = "=0.29.0", default-features = false, features = ["x11"] }
ort = { version = "=2.0.0-rc.12", default-features = false }
