[package]
name = "rgb565_codec"
version = "0.1.0"
edition = "2021"
publish = false

[dependencies]
anyhow = "=1.0.104"
image = { version = "=0.24.9", default-features = false }
rfd = { version = "=0.17.2", default-features = false, features = ["xdg-portal"] }
slint = { version = "=1.18.1", default-features = false, features = ["std", "compat-1-2"] }
