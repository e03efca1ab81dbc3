[package]
name = "portex_pkg"
version = "0.1.0"
edition = "2021"
publish = false

[dependencies]
pairing = "=0.14.2"
rand = "=0.4.6"
tiny-keccak = "1.5"
zeroize = "1"
hex_fmt = "0.3"
