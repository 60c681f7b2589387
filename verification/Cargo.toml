[package]
name = "bagel"
version = "0.1.0"
edition = "2021"
publish = false

[dependencies]
owo-colors = "*"
tracing = "*"
tracing-subscriber = "*"
