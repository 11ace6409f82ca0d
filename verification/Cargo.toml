[package]
name = "jarus_cache"
version = "0.1.0"
edition = "2021"
publish = false

[dependencies]
hex = "=0.4.3"
sha2 = "=0.10.9"
oxicode = "=0.2.6"
