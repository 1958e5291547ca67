[package]
name = "aicacia_db"
version = "0.1.0"
edition = "2021"
publish = false

[dependencies]
uuid = { version = "1", features = ["v7"] }
sqlparser = "*"
serde = { version = "1", features = ["derive"] }
serde_json = "1"
postcard = { version = "1", features = ["use-std"] }
redb = "*"
thiserror = "2"
