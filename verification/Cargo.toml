[package]
name = "dispo"
version = "0.1.0"
edition = "2021"
publish = false

[dependencies]
rand = "0.8"
serenity = { version = "0.11", features = ["collector"] }
mongodb = "2"
tokio = { version = "1", features = ["macros", "rt-multi-thread", "time"] }
dotenv = "0.15"
serde = { version = "1", features = ["derive"] }
