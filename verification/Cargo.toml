[package]
name = "yarp"
version = "0.1.0"
edition = "2021"
publish = false

[dependencies]
gtk4 = "0.6"
glib-macros = "0.17"
serde = { version = "1", features = ["derive"] }
serde_json = "1"
