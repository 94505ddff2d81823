[package]
name = "viktor"
version = "0.1.0"
edition = "2021"
publish = false

[dependencies]
fuzzy-matcher = "*"
ignore = "*"
serde = { version = "*", features = ["derive"] }
serde_json = "*"
thiserror = "*"
tokio = { version = "*", features = ["rt", "fs"] }
reqwest = { version = "*", default-features = false, features = ["blocking", "json", "rustls-tls"] }
url = "*"

[dev-dependencies]
tempfile = "*"
