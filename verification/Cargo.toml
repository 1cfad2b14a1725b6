[package]
name = "otoriscv"
version = "0.1.0"
edition = "2021"
publish = false

[dependencies]
serde = { version = "1", features = ["derive"] }
bincode = "1.3"
zstd = "0.13"
flate2 = "1"
libc = "0.2"
wasm-bindgen = "0.2"
console_error_panic_hook = "0.1"
