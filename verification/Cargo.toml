[package]
name = "pos_core"
version = "0.1.0"
edition = "2021"
publish = false

[dependencies]
lru = "*"
uuid = { version = "*", features = ["v4"] }
serde = { version = "*", features = ["derive"] }
serde_json = "*"
chrono = "*"
rusqlite = { version = "*", features = ["bundled"] }
reqwest = { version = "*", default-features = false, features = ["blocking", "json"] }
mac_address = "*"
hostname = "*"
