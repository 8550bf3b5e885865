[package]
name = "pterodactyl_api"
version = "0.1.0"
edition = "2021"
publish = false

[dependencies]
urlencoding = "*"
serde = { version = "*", features = ["derive"] }
serde_json = "*"
thiserror = "*"
time = { version = "*", features = ["parsing", "formatting"] }
uuid = { version = "*", features = ["serde"] }
reqwest = { version = "*", default-features = false, features = ["json"] }
async-tungstenite = "*"
futures-core = "*"
futures-io = "*"
futures-util = "*"
bytes = "*"
