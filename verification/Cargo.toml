[package]
name = "storage_items"
version = "0.1.0"
edition = "2021"
publish = false

[dependencies]
parity-codec = "2.1"
