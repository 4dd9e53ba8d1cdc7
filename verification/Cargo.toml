[package]
name = "uniffi_bindgen"
version = "0.1.0"
edition = "2021"
publish = false

[dependencies]
askama = "0.11"
heck = "=0.3.3"
serde = { version = "=1.0.229", features = ["derive"] }
