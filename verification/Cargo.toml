[package]
name = "skybox"
version = "0.1.0"
edition = "2021"
publish = false

[dependencies]
roxmltree = "*"
url = "*"
chrono = "*"
reqwest = { version = "*", default-features = false }
tokio = { version = "*", features = ["macros", "rt-multi-thread"] }
futures = "*"
ssdp-client = "*"
preferences = "*"
clap = "*"
indicatif = "*"
csv = "*"
serde = { version = "*", features = ["derive"] }
serde_json = "*"
