[package]
name = "asset_stickers"
version = "0.1.0"
edition = "2021"
publish = false

[dependencies]
base64 = "=0.21.7"
js-sys = "=0.3.106"
qrcode-generator = { version = "=4.1.9", default-features = false }
reqwest-wasm = { version = "=0.11.16", default-features = false }
serde_json = "=1.0.154"
thiserror = "=1.0.69"
urlencoding = "=2.1.3"
wasm-bindgen = "=0.2.129"
wasm-bindgen-futures = "=0.4.79"
web-sys = { version = "=0.3.106", features = ["Window"] }
xmltree = "=0.10.3"
zip = { version = "=0.6.6", default-features = false, features = ["deflate"] }
