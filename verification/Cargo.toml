[package]
name = "ssg"
version = "0.1.0"
edition = "2021"
publish = false

[dependencies]
pulldown-cmark = { version = "0.7", default-features = false }
toml = "0.5"
