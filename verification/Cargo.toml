[package]
name = "doxcer"
version = "0.1.0"
edition = "2021"
publish = false

[dependencies]
fernet = "*"
serde = { version = "*", features = ["derive"] }
reqwest = { version = "*", default-features = false, features = ["blocking", "json", "rustls-tls"] }
