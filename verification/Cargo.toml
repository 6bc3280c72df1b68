[package]
name = "amsterdam"
version = "0.1.0"
edition = "2021"
publish = false

[dependencies]
serde_json = "*"
clap = "*"
rpassword = "*"
reqwest = { version = "*", default-features = false, features = ["blocking", "json"] }
