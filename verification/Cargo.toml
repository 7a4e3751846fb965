[package]
name = "ficdata"
version = "0.1.0"
edition = "2021"
publish = false

[dependencies]
regex = "1"
scraper = "*"
serde = { version = "1", features = ["derive"] }
serde_json = "1"
diesel = { version = "2", features = ["sqlite"] }
bzip2 = "*"
rayon = "1"
thiserror = "*"
