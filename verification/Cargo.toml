[package]
name = "nanogame3d"
version = "0.1.0"
edition = "2021"
publish = false

[dependencies]
byteorder = "=1.5.0"
regex = "=1.13.1"
qoi = "=0.4.1"
rect_packer = "=0.2.1"
shellwords = "=1.1.0"
toml = "0.8"
