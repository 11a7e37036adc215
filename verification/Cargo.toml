[package]
name = "image_search"
version = "0.4.0"
edition = "2021"
publish = false

[dependencies]
async-std = "1"
futures = "0.3"
glob = "0.3"
infer = "*"
reqwest = "0.11"
serde_json = "1"
surf = "2"
