[package]
name = "rspack_plugins"
version = "0.1.0"
edition = "2021"
publish = false

[dependencies]
regex = "1"
rustc-hash = "1.1"
