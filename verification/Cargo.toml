[package]
name = "kurtosis_rust_lib"
version = "0.1.0"
edition = "2021"
publish = false

[dependencies]
anyhow = "1"
futures = "0.3"
reqwest = { version = "0.11", default-features = false, features = ["blocking"] }
