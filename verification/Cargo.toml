[package]
name = "wiki_server"
version = "0.1.0"
edition = "2021"
publish = false

[dependencies]
pulldown-cmark = { version = "*", default-features = false, features = ["html"] }
serde_json = "1"
tokio = { version = "1", features = ["full"] }
gurtlib = "*"
