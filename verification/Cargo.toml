[package]
name = "partfetch"
version = "0.1.0"
edition = "2021"
publish = false

[dependencies]
clap = "*"
futures = "*"
indicatif = "*"
reqwest = { version = "*", default-features = false }
tokio = { version = "*", default-features = false, features = ["rt-multi-thread", "macros"] }
