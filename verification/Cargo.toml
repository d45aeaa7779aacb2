[package]
name = "graph_mirror"
version = "0.1.0"
edition = "2021"
publish = false

[dependencies]
turso = "*"
futures = "*"
serde_json = "*"

[dev-dependencies]
tempfile = "*"
