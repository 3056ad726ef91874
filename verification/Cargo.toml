[package]
name = "undetected_chromedriver"
version = "0.1.0"
edition = "2021"
publish = false

[dependencies]
rand = "0.8"
reqwest = { version = "0.11", default-features = false, features = ["rustls-tls"] }
thirtyfour = "0.31"
zip = { version = "0.6", default-features = false, features = ["deflate"] }
