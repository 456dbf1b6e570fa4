[package]
name = "highlight_pulldown"
version = "0.2.0"
edition = "2021"
publish = false

[dependencies]
syntect = { version = "5", default-features = false, features = ["default-fancy"] }
pulldown-cmark = { version = "0.9", default-features = false }
thiserror = "1"
