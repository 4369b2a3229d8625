[package]
name = "photo_server"
version = "0.1.0"
edition = "2021"
publish = false

[dependencies]
html-escape = "0.2"
image = { version = "0.25", default-features = false, features = ["jpeg"] }
tiny_http = "0.12"
url = "2"
url-escape = "0.1"
