[package]
name = "udemy_dl"
version = "0.9.2"
edition = "2021"
publish = false

[dependencies]
regex = "1"
serde_json = "1"
reqwest = { version = "0.12", default-features = false, features = ["blocking", "json", "rustls-tls"] }
indicatif = "0.17"
structopt = "0.3"
