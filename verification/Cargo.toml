[package]
name = "many_wasm_server"
version = "0.1.0"
edition = "2021"
publish = false

[dependencies]
anyhow = "*"
clap = { version = "*", features = ["derive"] }
either = { version = "*", features = ["serde"] }
hex = "=0.4.3"
json5 = "*"
minicbor = { version = "*", features = ["std"] }
serde = "*"
serde_derive = "*"
serde_json = "*"
sha3 = "=0.12.0"
tracing = "*"
tracing-subscriber = "*"
wasmtime = "=47.0.4"
