[package]
name = "loadout"
version = "0.1.0"
edition = "2021"
publish = false

[dependencies]
dioxus = { version = "=0.6.3", features = ["web", "fullstack"] }
dioxus-logger = "=0.6.2"
gloo-timers = { version = "=0.3.0", features = ["futures"] }
log = "=0.4.34"
reqwest = { version = "=0.12.28", default-features = false }
serde_json = "=1.0.154"
strum = "=0.28.0"
wasm-bindgen = "=0.2.129"
