[package]
name = "chat_relay"
version = "0.1.0"
edition = "2021"
publish = false

[dependencies]
chrono = "0.4"
lazy_static = "1"
parking_lot = "0.12"
rocket = { version = "0.5", features = ["secrets"] }
rocket_dyn_templates = { version = "*", features = ["handlebars"] }
serde_json = "1"
uuid = { version = "1", features = ["v4"] }
ws = "0.9"
