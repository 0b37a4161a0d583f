[package]
name = "h_crawler"
version = "0.1.0"
edition = "2021"
publish = false

[dependencies]
serde_json = "=1.0.151"
serde = { version = "*", features = ["derive"] }
toml = "*"
clap = { version = "=4.6.7", features = ["derive"] }
reqwest = { version = "=0.13.5", default-features = false, features = ["blocking", "query"] }
kuchiki = "=0.8.1"
regex = "*"
lazy_static = "*"
sanitize-filename = "*"
