[package]
name = "gitlab_cache"
version = "0.1.0"
edition = "2021"
publish = false

[dependencies]
heck = "*"
serde = "*"
serde_derive = "*"
serde_json = "*"
eyre = "*"
reqwest = { version = "*", default-features = false, features = ["blocking", "json"] }
