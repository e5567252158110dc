[package]
name = "zoro_desktop"
version = "0.1.0"
edition = "2021"
publish = false

[dependencies]
serde = { version = "1", features = ["derive"] }
serde_json = "1"
regex = "1"
chrono = "0.4"
lopdf = "*"
uuid = { version = "1", features = ["v4"] }
which = "*"
url = "2"
toml = "*"
rusqlite = { version = "*", features = ["bundled"] }
