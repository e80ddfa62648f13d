[package]
name = "rust_npy_io"
version = "0.1.0"
edition = "2021"
publish = false

[dependencies]
regex = "1"
