[package]
name = "lrc_parser"
version = "0.1.0"
edition = "2021"
publish = false

[dependencies]
rust_decimal = { version = "1", default-features = false, features = ["std"] }
thiserror = "1"

[dev-dependencies]
nom = "7"
