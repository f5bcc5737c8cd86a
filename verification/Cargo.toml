[package]
name = "emg"
version = "0.1.0"
edition = "2021"
publish = false

[dependencies]
base64 = "=0.23.1"
clap = { version = "=4.6.7", features = ["derive"] }
serde_json = "=1.0.151"
wasmtime = "=48.0.5"
