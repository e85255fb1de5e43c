[package]
name = "indexing"
version = "0.1.0"
edition = "2021"
publish = false

[dependencies]
octocrab = "=0.44.1"
