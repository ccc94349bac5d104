[package]
name = "gprox"
version = "0.1.0"
edition = "2021"
publish = false

[dependencies]
tokio = { version = "1", features = ["full"] }
log = "0.4"
colog = "*"
notify = "*"
serde = { version = "1", features = ["derive"] }
serde_json = "1"
