[package]
name = "fn_indexer"
version = "0.1.0"
edition = "2021"
publish = false

[dependencies]
walkdir = "2"
fs-err = "*"

[dev-dependencies]
tempfile = "3"
