[package]
name = "clipboard_master"
version = "0.1.0"
edition = "2021"
publish = false

[dependencies]
x11rb = { version = "=0.13.2", features = ["xfixes"] }
x11-clipboard = "=0.9.3"
