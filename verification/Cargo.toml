[package]
name = "glean_core"
version = "0.1.0"
edition = "2021"
publish = false

[dependencies]
ffi-support = "*"
rkv = "*"
serde = { version = "*", features = ["derive"] }
serde_json = "*"
log = "*"
lazy_static = "*"
