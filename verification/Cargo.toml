[package]
name = "weather_gov"
version = "0.1.0"
edition = "2021"
publish = false

[dependencies]
serde_json = "*"
serde = { version = "*", features = ["derive"] }
serde_yaml = "*"
reqwest = { version = "*", default-features = false }
sqlx = { version = "*", default-features = false, features = ["mysql"] }
async-std = "*"
log = "*"
colog = "*"
chrono = "*"
