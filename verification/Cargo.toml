[package]
name = "rtld"
version = "0.1.0"
edition = "2021"
publish = false

[dependencies]
sha1 = "=0.11.0"
