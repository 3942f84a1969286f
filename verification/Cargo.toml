[package]
name = "turbine"
version = "0.1.0"
edition = "2021"
publish = false

[dependencies]
petgraph = "0.6"
heck = "0.4"
regex = "1"
once_cell = "1"
reqwest = { version = "0.11", default-features = false }
serde = { version = "1", features = ["derive"] }
serde_json = "1"
error-stack = "0.3"
onlyerror = "0.1"
