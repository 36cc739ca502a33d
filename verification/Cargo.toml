[package]
name = "rust_validator"
version = "0.1.0"
edition = "2021"
publish = false

[dependencies]
chrono = "0.4"
napi = "2"
napi-derive = "2"
