[package]
name = "storage"
version = "0.1.0"
edition = "2021"
publish = false

[dependencies]
sled = "0.34"
serde = { version = "1", features = ["derive"] }
serde_json = "1"
openraft = { version = "0.8", features = ["serde"] }
actix-web = { version = "4", default-features = false, features = ["macros"] }
reqwest = { version = "0.11", default-features = false, features = ["json"] }
tokio = { version = "1", features = ["rt", "rt-multi-thread", "time", "sync", "macros"] }
clap = { version = "3", features = ["derive"] }
async-trait = "0.1"
tracing = "0.1"
