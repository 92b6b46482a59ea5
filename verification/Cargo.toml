[package]
name = "yousearch"
version = "0.1.0"
edition = "2021"
publish = false

[dependencies]
url = "2"
querystring = "1"
html-entities = "*"
xml-rs = "0.8"
serde_json = "1"
serde = { version = "1", features = ["derive"] }
chrono = { version = "0.4", features = ["serde"] }
dotenv = "0.15"
reqwest = { version = "0.11", default-features = false, features = ["json", "rustls-tls"] }
rocket = { version = "0.5", features = ["json"] }
sqlx = { version = "0.7", default-features = false, features = ["runtime-tokio", "postgres", "chrono", "json", "macros"] }
