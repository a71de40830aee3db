[package]
name = "beerlog"
version = "0.1.0"
edition = "2021"
publish = false

[dependencies]
actix-cors = "*"
actix-rt = "*"
actix-web = "4"
authy = "*"
chrono = "*"
dotenv = "*"
env_logger = "*"
log = "*"
serde = { version = "*", features = ["derive"] }
textnonce = "*"
