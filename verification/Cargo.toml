[package]
name = "jjs"
version = "0.1.0"
edition = "2021"
publish = false

[dependencies]
anyhow = "1"
base64 = "0.13"
clap = { version = "3", features = ["derive"] }
libc = "0.2"
nix = "0.23"
rand = "0.8"
reqwest = { version = "0.11", default-features = false, features = ["blocking", "json"] }
serde = { version = "1", features = ["derive"] }
serde_json = "1"
serde_yaml = "0.8"
uuid = { version = "0.8", features = ["v4"] }
xshell = "0.1"
