[package]
name = "boltzmann"
version = "0.1.0"
edition = "2021"
publish = false

[dependencies]
ndarray = "0.15"
serde = { version = "1", features = ["derive"] }
wasm-bindgen = "0.2"
