[package]
name = "q_rust"
version = "0.1.0"
edition = "2021"
publish = false

[dependencies]
nom = "7"
petgraph = { version = "0.6", default-features = false }
