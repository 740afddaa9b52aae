[package]
name = "bili"
version = "0.1.0"
edition = "2021"
publish = false

[dependencies]
json = "*"
urlencoding = "*"
chrono = "*"
html_parser = "*"
futures = "*"
subprocess = "*"
reqwest = { version = "*", default-features = false }
