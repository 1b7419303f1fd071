[package]
name = "dapr_components"
version = "0.1.0"
edition = "2021"
publish = false

[dependencies]
urlencoding = "2"
humantime = "2"
prost = "*"
prost-types = "*"
serde = { version = "1", features = ["derive"] }
serde_json = "1"
http = "1"
tonic = { version = "*", default-features = false }
