[package]
name = "mswm"
version = "0.1.0"
edition = "2021"
publish = false

[dependencies]
x11rb = "*"
xkbcommon = { version = "*", default-features = false }
