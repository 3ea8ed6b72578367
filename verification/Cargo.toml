[package]
name = "guidance_rs"
version = "0.1.0"
edition = "2021"
publish = false

[dependencies]
jsonschema = { version = "0.17", default-features = false }
regex = "1"
serde_json = { version = "1", features = ["preserve_order"] }
