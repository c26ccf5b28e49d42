[package]
name = "eppo_core"
version = "0.1.0"
edition = "2021"
publish = false

[dependencies]
md5 = "*"
regex = "*"
base64 = "*"
base64-url = "*"
form_urlencoded = "*"
sha2 = "*"
serde = { version = "*", features = ["derive"] }
serde_json = "*"
chrono = "*"
url = "*"
uuid = { version = "*", features = ["v4"] }
reqwest = { version = "*", default-features = false, features = ["blocking", "json"] }
tokio = { version = "*", features = ["rt", "sync", "time", "macros"] }
log = "*"
