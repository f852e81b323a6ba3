[package]
name = "flow_control"
version = "0.1.0"
edition = "2021"
publish = false

[dependencies]
hex = "0.4"
rand = "0.8"
serde_json = "1.0"
