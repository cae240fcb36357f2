[package]
name = "looptober"
version = "0.1.0"
edition = "2021"
publish = false

[dependencies]
dropbox-sdk = "*"
rocket = "0.5"
rocket-include-static-resources = "*"
simple-xml-builder = "*"
