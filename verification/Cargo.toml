[package]
name = "rustledge"
version = "0.1.0"
edition = "2021"
publish = false

[dependencies]
docx = "=1.1.2"
git2 = { version = "=0.20.4", default-features = false }
goji = "=0.1.1"
reqwest = { version = "=0.12.28", default-features = false, features = ["blocking", "json", "rustls-tls"] }
rocket = { version = "=0.4.11", default-features = false }
rocket_contrib = { version = "=0.4.11", default-features = false, features = ["json"] }
serde = { version = "=1.0.229", features = ["derive"] }
serde_json = "=1.0.154"
tantivy = { version = "=0.22.1", default-features = false, features = ["mmap"] }
walkdir = "=2.5.0"
