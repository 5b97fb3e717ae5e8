[package]
name = "atlas"
version = "0.1.0"
edition = "2021"
publish = false

[dependencies]
glam = "*"
png = "*"
tracing = "*"
tracing-subscriber = { version = "*", features = ["env-filter"] }
