[package]
name = "slide_puzzle"
version = "0.1.0"
edition = "2021"
publish = false

[dependencies]
rand = "0.8"
rand_xoshiro = "0.6"
wasm-timer = "0.2"
base64 = "0.21"
phf = { version = "0.11", features = ["macros"] }
leptos = { version = "0.6", features = ["csr"] }
