[package]
name = "antlr_rust"
version = "0.1.0"
edition = "2021"
publish = false

[dependencies]
bit-set = "*"
byteorder = "*"
murmur3 = "*"
uuid = "*"
