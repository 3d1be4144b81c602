[package]
name = "pdsc"
version = "0.1.0"
edition = "2021"
publish = false

[dependencies]
minidom = "0.9"
clap = "2"
serde = { version = "1", features = ["derive"] }
serde_json = "1"
