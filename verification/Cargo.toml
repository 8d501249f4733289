[package]
name = "realworld_backend"
version = "0.1.0"
edition = "2021"
publish = false

[dependencies]
jsonwebtoken = { version = "=11.1.0", features = ["rust_crypto"] }
scrypt = "=0.11.0"
rand_core = { version = "=0.6.4", features = ["getrandom"] }
slugify = "=0.1.0"
validator = "=0.21.0"
chrono = "=0.4.45"
serde = { version = "=1.0.229", features = ["derive"] }
serde_json = "=1.0.151"
tide = "=0.16.0"
async-std = "=1.13.2"
dotenv = "=0.15.0"
once_cell = "=1.21.4"
