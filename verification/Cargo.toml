[package]
name = "spore"
version = "0.1.0"
edition = "2021"
publish = false

[dependencies]
ckb-hash = "*"
hex = "*"
kmp = "*"
