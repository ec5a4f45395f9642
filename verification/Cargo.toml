[package]
name = "pngpipe"
version = "0.1.0"
edition = "2021"
publish = false

[dependencies]
png = "*"
oxipng = { version = "*", default-features = false }
imagequant = "*"
rgb = "*"
serde = { version = "*", features = ["derive"] }
wasm-bindgen = "*"
js-sys = "*"
serde-wasm-bindgen = "*"
