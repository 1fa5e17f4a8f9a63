[package]
name = "rustic_backup"
version = "0.1.0"
edition = "2021"
publish = false

[dependencies]
anyhow = "1"
chrono = "0.4"
clap = { version = "4", features = ["derive"] }
encoding_rs = "0.8"
flate2 = "1"
globset = "0.4"
inquire = "0.7"
regex = "1"
reqwest = { version = "0.12", default-features = false, features = ["blocking", "json", "multipart", "rustls-tls"] }
serde = { version = "1", features = ["derive"] }
serde_json = "1"
tar = "0.4"
walkdir = "2"
zip = { version = "2", default-features = false, features = ["deflate"] }
