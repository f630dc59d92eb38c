[package]
name = "firma"
version = "0.1.0"
edition = "2021"
publish = false

[dependencies]
bitcoin = "0.23"
hex = "0.4"
log = "0.4"
serde = { version = "1", features = ["derive"] }
serde_json = "1"
structopt = "0.3"
