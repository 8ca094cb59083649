[package]
name = "edgar_statements"
version = "0.1.0"
edition = "2021"
publish = false

[dependencies]
reqwest = { version = "0.12", features = ["blocking"] }
scraper = "0.23"
serde = { version = "1", features = ["derive"] }
serde_json = "1"
serde-xml-rs = "*"
