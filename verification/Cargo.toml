[package]
name = "ntlm"
version = "0.1.0"
edition = "2021"
publish = false

[dependencies]
digest = "0.10"
hmac = "0.12"
md4 = "0.10"
md-5 = "0.10"
rand = "0.9"
