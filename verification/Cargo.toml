[package]
name = "es_data_parser"
version = "0.1.0"
edition = "2021"
publish = false

[dependencies]
nom = { version = "5.1", default-features = false, features = ["std"] }
