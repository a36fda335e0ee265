[package]
name = "siqnastee"
version = "0.1.0"
edition = "2021"
publish = false

[dependencies]
rand = "=0.8.8"
nannou = "0.19"
async-std = "=1.13.2"
wasm-bindgen = "=0.2.129"
console_error_panic_hook = "=0.1.7"
