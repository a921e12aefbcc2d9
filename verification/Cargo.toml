[package]
name = "ck_meow"
version = "0.1.0"
edition = "2021"
publish = false

[dependencies]
keccak = "=0.1.6"
subtle = "=2.6.1"
zeroize = "=1.9.1"
