[package]
name = "otw_core"
version = "0.1.0"
edition = "2021"
publish = false

[dependencies]
ammonia = "=4.2.4"
base64 = "=0.22.1"
sha2 = "=0.10.9"
subtle = "=2.6.1"
reqwest = { version = "=0.12.28", default-features = false }
serde = { version = "=1.0.229", features = ["derive"] }
serde_json = "=1.0.154"
getrandom = "=0.3.4"
anyhow = "=1.0.104"
time = { version = "=0.3.55", features = ["parsing", "formatting"] }
uuid = { version = "=1.29.0", features = ["v4"] }
mail-parser = "=0.11.9"
