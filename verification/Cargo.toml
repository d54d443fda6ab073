[package]
name = "github_dl"
version = "0.1.0"
edition = "2021"
publish = false

[dependencies]
url = "2"
serde_json = { version = "1", features = ["preserve_order"] }
serde = { version = "1", features = ["derive"] }
reqwest = { version = "0.12", features = ["blocking", "json"] }
clap = { version = "4", features = ["derive"] }
dotenvy = "0.15"
