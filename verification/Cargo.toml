[package]
name = "emberflow"
version = "0.1.0"
edition = "2021"
publish = false

[dependencies]
rusqlite = { version = "*", features = ["bundled"] }
serde_json = "1"

[dev-dependencies]
tempfile = "3"
