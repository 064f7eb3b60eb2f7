[package]
name = "gateway_support"
version = "0.1.0"
edition = "2021"
publish = false

[dependencies]
chrono = { version = "=0.4.45", default-features = false, features = ["clock"] }
log = "0.4"
tauri = { version = "2", default-features = false }
tauri-plugin-http = { version = "2", default-features = false }
tauri-plugin-log = { version = "2", default-features = false }
