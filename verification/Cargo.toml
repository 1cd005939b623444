[package]
name = "wirefish"
version = "0.1.0"
edition = "2021"
publish = false

[dependencies]
chrono = "0.4"
pnet = "*"
serde = { version = "1", features = ["derive"] }
log = "0.4"
dotenv = "0.15"
