[package]
name = "adbgadget"
version = "0.1.0"
edition = "2021"
publish = false

[dependencies]
anyhow = "1"
crossbeam-channel = "0.5"
libusb1-sys = { version = "*", features = ["vendored"] }
nix = { version = "*", features = ["fs"] }
portable-pty = "*"
