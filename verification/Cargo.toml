[package]
name = "edit"
version = "0.1.0"
edition = "2021"
publish = false

[dependencies]
regex = "1"
syntect = { version = "5", default-features = false, features = ["default-fancy"] }
