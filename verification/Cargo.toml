[package]
name = "sdb"
version = "0.1.0"
edition = "2021"
publish = false

[dependencies]
dashmap = "*"
time = "*"
serde = { version = "*", features = ["derive"] }
serde_json = "*"
thiserror = "*"
directories = "*"
