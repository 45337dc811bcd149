[package]
name = "webapps"
version = "0.1.0"
edition = "2021"
publish = false

[dependencies]
psl = "2"
url = "2"
uuid = { version = "1", features = ["v4"] }
urlencoding = "2"
serde = { version = "1", features = ["derive"] }
serde_json = "1"
toml = "0.8"
dirs = "5"
thiserror = "1"
open = "5"
reqwest = { version = "0.12", default-features = false, features = ["rustls-tls"] }
tokio = { version = "1", features = ["sync", "rt", "macros", "time"] }
