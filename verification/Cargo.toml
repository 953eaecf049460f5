[package]
name = "rfpm"
version = "0.1.0"
edition = "2021"
publish = false

[dependencies]
ar = "0.9"
flate2 = "1"
liblzma = "*"
md5 = "*"
sha2 = "0.10"
tar = "0.4"
tempfile = "3"
zstd = "0.13"
rpm = "*"
