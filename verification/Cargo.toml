[package]
name = "gato_http_server"
version = "0.1.0"
edition = "2021"
publish = false

[dependencies]
gato-core = "*"
