[package]
name = "academic_records"
version = "0.1.0"
edition = "2021"
publish = false

[dependencies]
actix-cors = "*"
actix-web = "4"
argon2 = { version = "0.5", features = ["std"] }
chrono = "0.4"
rusqlite = { version = "*", features = ["bundled"] }
serde = { version = "1", features = ["derive"] }
serde_json = "1"

[dev-dependencies]
regex = "1"
