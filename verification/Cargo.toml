[package]
name = "voikko_rs"
version = "0.1.0"
edition = "2021"
publish = false

[dependencies]
unicode-segmentation = "1"
libc = "0.2"
