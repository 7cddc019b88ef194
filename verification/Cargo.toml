[package]
name = "usbip"
version = "0.1.0"
edition = "2021"
publish = false

[dependencies]
libc = "0.2"
log = "0.4"
rusb = "0.9"
tokio = { version = "1", features = ["rt", "net", "io-util", "sync", "time"] }
