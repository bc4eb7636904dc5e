[package]
name = "super_analyzer"
version = "0.1.0"
edition = "2021"
publish = false

[dependencies]
handlebars = "*"
serde_json = "*"
zip = { version = "*", default-features = false, features = ["deflate"] }
