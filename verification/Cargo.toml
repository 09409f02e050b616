[package]
name = "widget_config"
version = "0.1.0"
edition = "2021"
publish = false

[dependencies]
hocon = { version = "0.3", default-features = false }
anyhow = "1"
