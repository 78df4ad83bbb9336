[package]
name = "glsl_front"
version = "0.1.0"
edition = "2021"
publish = false

[dependencies]
pp-rs = "*"
log = "*"
