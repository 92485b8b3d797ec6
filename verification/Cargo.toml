[package]
name = "fast_share_qr"
version = "0.1.0"
edition = "2021"
publish = false

[dependencies]
clap = { version = "3.2", features = ["derive"] }
local_ipaddress = "0.1"
portpicker = "0.1"
qrcode = { version = "0.12", default-features = false }
tokio = { version = "1", features = ["macros", "rt-multi-thread", "time"] }
urlencoding = "2"
warp = "0.3"
