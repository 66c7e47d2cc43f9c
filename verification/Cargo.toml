[package]
name = "p2p_message"
version = "0.1.0"
edition = "2021"
publish = false

[dependencies]
hmac-sha256 = "*"
hex = "*"
