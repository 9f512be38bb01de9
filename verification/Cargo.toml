[package]
name = "issuectl"
version = "0.1.0"
edition = "2021"
publish = false

[dependencies]
similar = "*"
clap = { version = "4", features = ["derive"] }
clap_complete = "4"
serde_json = "1"
anyhow = "1"
