[package]
name = "compile"
version = "0.1.0"
edition = "2021"
publish = false

[dependencies]
parity-wasm = "*"
