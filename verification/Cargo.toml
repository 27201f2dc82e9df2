[package]
name = "nu_plugin_herdr_navigate_directory"
version = "0.2.0"
edition = "2021"
publish = false

[dependencies]
nu-plugin = "0.115"
nu-protocol = "0.115"
serde = { version = "1", features = ["derive"] }
serde_json = "1"
