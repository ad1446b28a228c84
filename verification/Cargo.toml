[package]
name = "htom_core"
version = "0.1.0"
edition = "2021"
publish = false

[dependencies]
html5ever = "=0.39.0"
markup5ever_rcdom = "=0.39.0"
serde = { version = "=1.0.229", features = ["derive"] }
serde_json = "=1.0.154"
maud = "=0.27.0"
wasm-bindgen = "=0.2.129"
gloo-utils = "=0.3.0"
