[package]
name = "rpbc"
version = "0.1.0"
edition = "2021"
publish = false

[dependencies]
console = "0.15"
cpal = "0.15"
json = "0.12"
mouse_position = "0.1"
pitch-detector = "*"
rdev = "0.5"
