[package]
name = "hake"
version = "0.1.0"
edition = "2021"
publish = false

[dependencies]
anyhow = "*"
base64 = "0.13"
bollard = "*"
console = "*"
dirs = "*"
reqwest = { version = "*", default-features = false, features = ["blocking", "json"] }
serde = "*"
serde_derive = "*"
serde_json = "*"
serde_yaml = "*"
structopt = "*"
tokio = { version = "*", features = ["rt", "rt-multi-thread"] }
