[package]
name = "buddhaland"
version = "0.1.0"
edition = "2021"
publish = false

[dependencies]
bounded-collections = "*"
parity-scale-codec = { version = "*", features = ["derive"] }
scale-info = { version = "*", features = ["derive"] }
