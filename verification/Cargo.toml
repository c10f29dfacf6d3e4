[package]
name = "what_is_my_ip"
version = "0.1.0"
edition = "2021"
publish = false

[dependencies]
anyhow = "1"
clap = { version = "4", features = ["derive"] }
jiff = "*"
reqwest = { version = "*", default-features = false, features = ["blocking", "rustls-tls"] }
