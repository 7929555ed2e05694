[package]
name = "openby"
version = "0.1.0"
edition = "2021"
publish = false

[dependencies]
getopts = "0.2"
serde = { version = "1.0", features = ["derive"] }
toml = "0.4"
