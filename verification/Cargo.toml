[package]
name = "kestrelc"
version = "0.1.0"
edition = "2021"
publish = false

[dependencies]
notify = "6"
tiny_http = "0.12"
