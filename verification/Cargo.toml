[package]
name = "mobisca"
version = "0.1.0"
edition = "2021"
publish = false

[dependencies]
anyhow = "1"
chrono = "0.4"
clap = { version = "4", features = ["derive", "env"] }
goblin = "*"
regex = "1"
reqwest = { version = "0.12", default-features = false, features = ["blocking", "json"] }
rusty-axml = "*"
serde = { version = "1", features = ["derive"] }
serde_json = "1"
