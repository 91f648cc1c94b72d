[package]
name = "ovh_dns_updater"
version = "0.1.0"
edition = "2021"
publish = false

[dependencies]
addr = "*"
sha1 = "*"
clap = { version = "*", features = ["derive"] }
dotenv = "*"
futures = "*"
reqwest = { version = "*", default-features = false }
tokio = { version = "*", features = ["macros", "rt-multi-thread"] }
