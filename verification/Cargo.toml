[package]
name = "diffpaint"
version = "0.1.0"
edition = "2021"
publish = false

[dependencies]
syntect = "=5.3.0"
