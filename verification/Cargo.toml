[package]
name = "yevice"
version = "0.1.0"
edition = "2021"
publish = false

[dependencies]
hcl-rs = "*"
serde = { version = "1", features = ["derive"] }
serde_json = "1"
serde_yaml_ng = "*"
thiserror = "*"
toml = "*"
tracing = "0.1"
ureq = "*"
