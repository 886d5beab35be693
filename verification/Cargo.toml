[package]
name = "dx_icon"
version = "0.1.0"
edition = "2021"
publish = false

[dependencies]
flatbuffers = "*"
quick-xml = "*"
regex = "1"
serde = { version = "1", features = ["derive"] }
serde_json = "1"
walkdir = "2"
