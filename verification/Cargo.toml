[package]
name = "terax_linuxkit"
version = "0.1.0"
edition = "2021"
publish = false

[dependencies]
serde = { version = "=1.0.229", features = ["derive"] }
serde_json = "=1.0.154"
log = "=0.4.35"
tauri = { version = "2", default-features = false }
tauri-plugin-store = "2"
tauri-plugin-process = "2"
tauri-plugin-window-state = "2"
