[package]
name = "abolishpdfs"
version = "0.1.0"
edition = "2021"
publish = false

[dependencies]
clap = { version = "4", features = ["derive", "env"] }
env_logger = "0.11"
image = { version = "0.25", default-features = false, features = ["png"] }
pdfium-render = "*"
serde = { version = "1", features = ["derive"] }
serde_json = "1"
tempfile = "3"
thiserror = "2"
