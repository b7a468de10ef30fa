[package]
name = "icicle"
version = "0.1.0"
edition = "2021"
publish = false

[dependencies]
anyhow = "1"
log = "0.4"
relm4 = "0.5"
serde = { version = "1", features = ["derive"] }
serde_json = "1"
