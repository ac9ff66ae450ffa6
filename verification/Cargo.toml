[package]
name = "suivision"
version = "0.1.0"
edition = "2021"
publish = false

[dependencies]
base64 = "0.22"
futures = "0.3"
open = "5"
regex = "1"
reqwest = { version = "0.12", features = ["json"] }
roxmltree = "0.20"
scraper = "0.20"
serde = { version = "1", features = ["derive"] }
serde_json = "1"
urlencoding = "2"
