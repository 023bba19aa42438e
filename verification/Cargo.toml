[package]
name = "vanadium"
version = "0.1.0"
edition = "2021"
publish = false

[dependencies]
rustls = "*"
webpki-roots = "*"
