[package]
name = "mw"
version = "0.1.0"
edition = "2021"
publish = false

[dependencies]
futures-util = "0.3"
pin-project = "1"
reqwest = { version = "0.12", default-features = false, features = ["json", "cookies"] }
serde = { version = "1", features = ["derive"] }
serde_json = "1"
thiserror = "2"
