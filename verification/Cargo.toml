[package]
name = "powerusd"
version = "0.1.0"
edition = "2021"
publish = false

[dependencies]
anyhow = "=1.0.104"
quick-xml = "=0.42.0"
