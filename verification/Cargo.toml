[package]
name = "lifx_lan"
version = "0.1.0"
edition = "2021"
publish = false

[dev-dependencies]
lifx-core = "*"
