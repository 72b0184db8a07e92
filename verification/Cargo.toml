[package]
name = "wa_core"
version = "0.1.0"
edition = "2021"
publish = false

[dependencies]
sha2 = "0.10"
base64 = "0.22"
rand = "0.9"
serde_json = "1"
flate2 = "1"
bytes = "1"
futures = "0.3"
async-trait = "0.1"
tokio = { version = "1", features = ["fs", "io-util", "rt"] }
reqwest = { version = "0.12", default-features = false, features = ["stream"] }
