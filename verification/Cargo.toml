[package]
name = "link_titles"
version = "0.1.0"
edition = "2021"
publish = false

[dependencies]
futures = "0.3"
regex = "1"
reqwest = "0.12"
scraper = "*"
tokio = { version = "1", features = ["macros", "rt-multi-thread"] }
