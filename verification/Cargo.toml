[package]
name = "sandbox"
version = "0.1.0"
edition = "2021"
publish = false

[dependencies]
parity-scale-codec = "=2.3.1"
sp-core = "=3.0.0"
sp-wasm-interface = "=3.0.0"
substrate-bip39 = "=0.4.2"
wasmi = "=0.6.2"
wasmtime = { version = "=0.19.0", default-features = false }
wasmer = { version = "=1.0.2", default-features = false, features = ["jit", "singlepass"] }
wasmer-compiler-singlepass = "=1.0.2"
wasmer-types = "=1.0.2"
