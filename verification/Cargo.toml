[package]
name = "mse_fmp4"
version = "0.1.0"
edition = "2021"
publish = false

[dependencies]
byteorder = "1"
mpeg2ts = "*"
trackable = "*"
