[package]
name = "ip-to-country"
version = "0.1.0"
edition = "2021"
publish = false

[dependencies]
maxminddb = "0.25"
actix-web = "4"
dotenv = "0.15"
envconfig = "*"
serde = { version = "1", features = ["derive"] }
tokio = { version = "1", features = ["rt", "time"] }
