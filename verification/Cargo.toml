[package]
name = "relic_scanner"
version = "0.1.0"
edition = "2021"
publish = false

[dependencies]
anyhow = "=1.0.104"
image = { version = "=0.25.10", default-features = false, features = ["png"] }
ocrs = "=0.13.1"
rten = "=0.26.0"
rten-imageproc = "=0.26.0"
serde = { version = "=1.0.229", features = ["derive"] }
serde_json = "=1.0.154"
