[package]
name = "fm26_mod_manager"
version = "0.1.0"
edition = "2021"
publish = false

[dependencies]
chrono = "0.4"
dirs = "*"
futures-util = "0.3"
reqwest = { version = "0.12", default-features = false, features = ["stream", "rustls-tls"] }
serde = { version = "1", features = ["derive"] }
tauri = { version = "2", default-features = false }
tokio = { version = "1", features = ["fs", "io-util", "sync"] }
zip = { version = "*", default-features = false, features = ["deflate"] }
