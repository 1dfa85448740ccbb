[package]
name = "conf_service"
version = "0.1.0"
edition = "2021"
publish = false

[dependencies]
dotenv = "0.15"
envy = "0.4"
reqwest = { version = "0.12", default-features = false, features = ["json"] }
serde = { version = "1", features = ["derive"] }
