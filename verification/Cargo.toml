[package]
name = "docx-rs"
version = "0.1.0"
edition = "2021"
publish = false

[dependencies]
quick-xml = "=0.38.4"
serde = { version = "=1.0.229", features = ["derive"] }
