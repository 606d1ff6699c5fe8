[package]
name = "coding_survivor"
version = "0.1.0"
edition = "2021"
publish = false

[dependencies]
lazy_static = "1"
noise = "0.9"
rand = "0.9"
raylib = "*"
