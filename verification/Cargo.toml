[package]
name = "content_tree"
version = "0.1.0"
edition = "2021"
publish = false

[dependencies]
bytes = "=1.12.1"
roaring = "=0.11.5"
serde_json = "=1.0.154"
url = "=2.5.8"

[dev-dependencies]
uuid = "=1.29.0"
z85 = "=3.0.7"
