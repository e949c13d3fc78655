[package]
name = "pbinspect"
version = "0.1.0"
edition = "2021"
publish = false

[dependencies]
leptos = { version = "*", features = ["csr"] }
web-sys = { version = "*", features = ["Window", "Navigator", "Clipboard", "ClipboardItem", "Blob"] }
wasm-bindgen-futures = "*"
gloo-file = { version = "*", features = ["futures"] }
