[package]
name = "tauri_bindgen"
version = "0.1.0"
edition = "2021"
publish = false

[dependencies]
anyhow = "1"
clap = { version = "4", features = ["derive"] }
distance = "0.4"
heck = "0.4"
log = "0.4"
