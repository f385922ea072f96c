[package]
name = "house_hub"
version = "0.1.0"
edition = "2021"
publish = false

[dependencies]
serde = { version = "=1.0.229", features = ["derive"] }
serde_json = "=1.0.154"
hex = "=0.4.3"
log = "=0.4.35"
tokio = { version = "=1.54.1", features = ["rt-multi-thread", "macros", "sync", "time"] }
actix-web = { version = "=4.18.1", default-features = false, features = ["macros"] }
deadpool-postgres = "=0.14.2"
tokio-postgres = { version = "=0.7.18", features = ["with-serde_json-1"] }
rumqttc = { version = "=0.25.1", default-features = false }
async-stream = "=0.3.6"
reqwest = { version = "=0.13.5", default-features = false, features = ["json"] }
chrono = { version = "=0.4.45", default-features = false, features = ["clock"] }
