[package]
name = "aerie"
version = "0.1.0"
edition = "2021"
publish = false

[dependencies]
im = "=15.1.0"
uuid = { version = "=1.29.0", features = ["v4"] }
glob = "=0.3.4"
serde = { version = "=1.0.229", features = ["derive"] }
serde_json = "=1.0.154"
serde_yaml_ng = "=0.10.0"
clap = { version = "=4.6.7", features = ["derive"] }
anyhow = "=1.0.104"
dirs = "=7.0.0"
regex = "=1.13.1"
jsonschema = { version = "*", default-features = false }
minijinja = "2"
jaq-core = "2"
jaq-std = "2"
jaq-json = { version = "1", features = ["serde_json"] }
