[package]
name = "dialogue_tree"
version = "0.1.0"
edition = "2021"
publish = false

[dependencies]
indextree = { version = "4", default-features = false, features = ["std"] }
