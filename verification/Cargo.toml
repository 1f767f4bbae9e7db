[package]
name = "codedx_client"
version = "0.1.0"
edition = "2021"
publish = false

[dependencies]
serde_json = "*"
serde = "*"
serde_derive = "*"
clap = "*"
reqwest = { version = "*", default-features = false, features = ["blocking", "json", "multipart", "rustls-tls"] }
rpassword = "*"
url = "*"
