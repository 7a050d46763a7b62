[package]
name = "bitboard"
version = "0.1.0"
edition = "2021"
publish = false

[dependencies]
pfen = "*"
thiserror = "1"
