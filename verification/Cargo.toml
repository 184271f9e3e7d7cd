[package]
name = "acdatservice"
version = "0.1.0"
edition = "2021"
publish = false

[dependencies]
byteorder = "=1.5.0"
byteutils = "=0.1.1"
console_error_panic_hook = "=0.1.7"
dropshot = "=0.17.1"
image = { version = "=0.25.10", default-features = false, features = ["png"] }
schemars = "=0.8.22"
serde = { version = "=1.0.229", features = ["derive"] }
serde_json = "=1.0.154"
sqlite = "=0.37.4"
strum = "=0.28.0"
tokio = { version = "=1.54.1", features = ["full"] }
worker = { version = "=0.8.7", features = ["d1"] }
