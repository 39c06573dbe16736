[package]
name = "v8_bridge"
version = "0.1.0"
edition = "2021"
publish = false

[dependencies]
v8 = "*"
