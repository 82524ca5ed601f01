[package]
name = "cart_reader"
version = "0.1.0"
edition = "2021"
publish = false

[dependencies]
sysinfo = "=0.40.1"
serde = { version = "=1.0.229", features = ["derive"] }
serde_json = "=1.0.154"
serialport = { version = "=4.10.1", default-features = false }
dotenvy = "=0.15.7"
open = "=5.4.5"
image = { version = "=0.25.10", default-features = false, features = ["png", "jpeg", "webp", "gif", "bmp", "ico"] }
reqwest = { version = "=0.13.5", default-features = false, features = ["blocking", "json"] }
espflash = { version = "=4.7.0", default-features = false, features = ["serialport"] }
windows-icons = "=0.3.0"
