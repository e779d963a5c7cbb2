[package]
name = "delay_strategy"
version = "0.1.0"
edition = "2021"
publish = false

[dependencies]
tokio = { version = "1", features = ["rt", "time"] }
wasm-bindgen-futures = "0.4"
web-sys = { version = "0.3", features = ["Window"] }
