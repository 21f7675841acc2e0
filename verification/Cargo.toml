[package]
name = "customer_service"
version = "0.1.0"
edition = "2021"
publish = false

[dependencies]
actix-cors = "*"
actix-web = { version = "4", features = ["rustls"] }
anyhow = "1"
dotenv = "0.15"
log = "0.4"
oracle = "*"
rustls = "0.20"
rustls-pemfile = "1"
serde = { version = "1", features = ["derive"] }
