[package]
name = "rdp_proto"
version = "0.1.0"
edition = "2021"
publish = false

[dependencies]
md4 = "0.10"
md5 = "0.7"
rand = "0.8"
serde = { version = "1", features = ["derive"] }
serde_json = "1"
