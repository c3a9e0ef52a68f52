[package]
name = "hot_reload_core"
version = "0.1.0"
edition = "2021"
publish = false

[dependencies]
goblin = "*"
blake3 = "*"
libloading = "*"
notify = "*"
serde = { version = "*", features = ["derive"] }
serde_json = "*"
url = "*"
camino = "*"
uuid = { version = "*", features = ["v4"] }
