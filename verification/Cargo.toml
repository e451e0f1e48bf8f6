[package]
name = "rusterize"
version = "0.1.0"
edition = "2021"
publish = false

[dependencies]
cgmath = "=0.18.0"
genmesh = "=0.6.2"
image = { version = "=0.25.10", default-features = false }
vec_map = "=0.8.2"
