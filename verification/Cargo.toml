[package]
name = "ldraw"
version = "0.1.0"
edition = "2021"
publish = false

[dependencies]
async-std = "1"
cgmath = "0.18"
futures = "0.3"
glow = "*"
image = { version = "*", default-features = false }
itertools = "*"
