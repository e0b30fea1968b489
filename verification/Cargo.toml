[package]
name = "airrohr_bridge"
version = "0.1.0"
edition = "2021"
publish = false

[dependencies]
config = { version = "*", default-features = false, features = ["toml"] }
paho-mqtt = { version = "*", default-features = false, features = ["bundled"] }
rocket = "0.5"
serde = { version = "1", features = ["derive"] }
serde_json = "1"
