[package]
name = "flv_mp4"
version = "0.1.0"
edition = "2021"
publish = false

[dependencies]
byteorder = "1"
wasm-bindgen = "0.2"
js-sys = "0.3"
web-sys = { version = "0.3", features = ["Window", "Performance", "Navigator"] }
serde = "1"
serde_derive = "1"
