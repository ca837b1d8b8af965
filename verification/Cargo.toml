[package]
name = "chain_indexer"
version = "0.1.0"
edition = "2021"
publish = false

[dependencies]
rocket = { version = "0.5", default-features = false, features = ["json"] }
