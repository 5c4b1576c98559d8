[package]
name = "bankstown"
version = "0.1.0"
edition = "2021"
publish = false

[dependencies]
lv2 = "*"

[dev-dependencies]
biquad = "*"
