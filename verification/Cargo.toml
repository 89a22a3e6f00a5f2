[package]
name = "vecscan"
version = "0.1.0"
edition = "2021"
publish = false

[dependencies]
rand = { version = "0.8", features = ["small_rng"] }
rusqlite = { version = "*", features = ["functions", "bundled"] }
