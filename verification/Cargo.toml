[package]
name = "pgtools"
version = "0.1.0"
edition = "2021"
publish = false

[dependencies]
semver = "1"
url = "2"
tokio = { version = "1", features = ["process", "rt"] }
serde = { version = "1", features = ["derive"] }
log = "0.4"
