[package]
name = "toucan"
version = "0.1.0"
edition = "2021"
publish = false

[dependencies]
anyhow = "1"
cpp = "0.5"
cstr = "0.2"
qmetaobject = "0.2"
serde = { version = "1", features = ["derive"] }
serde_yaml = "0.8"
