[package]
name = "paint"
version = "0.1.0"
edition = "2021"
publish = false

[dependencies]
crossbeam-channel = "0.5"
euclid = "0.22"
log = "0.4"
rustc-hash = "2"
webrender = { version = "0.68", default-features = false }
webrender_api = "0.68"
