[package]
name = "emwin_tg"
version = "0.1.0"
edition = "2021"
publish = false

[dependencies]
bytes = "1"
futures = "0.3"
js-sys = "0.3"
log = "0.4"
pin-project-lite = "0.2"
reqwest = { version = "0.11", default-features = false, features = ["rustls-tls"] }
thiserror = "1"
tokio = { version = "1", features = ["time"] }
wasm-bindgen = "0.2"
wasm-bindgen-futures = "0.4"
web-sys = { version = "0.3", features = ["Window"] }
zip = { version = "0.6", default-features = false, features = ["deflate"] }
