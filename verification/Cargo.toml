[package]
name = "object_backend"
version = "0.1.0"
edition = "2021"
publish = false

[dependencies]
object = { version = "*", features = ["write"] }
target-lexicon = "*"
