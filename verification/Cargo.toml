[package]
name = "crypto_scrapper"
version = "0.1.0"
edition = "2021"
publish = false

[dependencies]
regex = "*"
scraper = "*"
ego-tree = "*"
serde = { version = "*", features = ["derive"] }
toml = "*"
tokio = { version = "*", features = ["rt-multi-thread"] }
reqwest = { version = "*", default-features = false }
fantoccini = { version = "*", default-features = false, features = ["rustls-tls"] }
clipboard-win = "*"
