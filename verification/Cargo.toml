[package]
name = "project_scan"
version = "0.1.0"
edition = "2021"
publish = false

[dependencies]
ignore = "0.4"
serde = { version = "1", features = ["derive"] }
serde_json = { version = "1", features = ["preserve_order"] }
