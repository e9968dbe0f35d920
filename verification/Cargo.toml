[package]
name = "lice"
version = "0.1.0"
edition = "2021"
publish = false

[dependencies]
strsim = "*"
serde = { version = "*", features = ["derive"] }
reqwest = { version = "*", default-features = false, features = ["json"] }
anyhow = "*"
