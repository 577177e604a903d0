[package]
name = "pgmt"
version = "0.1.0"
edition = "2021"
publish = false

[dependencies]
chrono = "*"
clap = { version = "*", features = ["derive"] }
crc32fast = "*"
deadpool-postgres = "*"
dotenvy = "*"
rand = "*"
semver = "*"
tokio = { version = "*", features = ["macros", "rt-multi-thread"] }
tokio-postgres = "*"
url = "*"
