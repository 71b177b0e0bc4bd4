[package]
name = "codexx"
version = "0.1.0"
edition = "2021"
publish = false

[dependencies]
base64 = "=0.22.1"
chrono = "=0.4.45"
reqwest = { version = "=0.12.28", default-features = false, features = ["blocking", "rustls-tls"] }
rfd = { version = "=0.15.4", default-features = false, features = ["xdg-portal", "async-std"] }
rusqlite = { version = "=0.32.1", features = ["bundled"] }
serde = { version = "=1.0.229", features = ["derive"] }
serde_json = "=1.0.154"
sha2 = "=0.10.9"
toml_edit = "=0.22.27"
ureq = { version = "=2.12.1", default-features = false, features = ["tls"] }
zip = { version = "=2.6.1", default-features = false, features = ["deflate"] }
