[package]
name = "auth_gateway"
version = "0.1.0"
edition = "2021"
publish = false

[dependencies]
axum = "0.6"
axum-extra = { version = "0.7", features = ["cookie-signed"] }
cookie = { version = "0.17", features = ["signed"] }
nom = "7"
rand = "0.8"
reqwest = { version = "0.11", default-features = false }
rpassword = "7"
rust-argon2 = "2"
serde = { version = "1", features = ["derive"] }
time = "0.3"
tokio = { version = "1", features = ["macros", "rt-multi-thread", "sync"] }
uuid = { version = "1", features = ["v4"] }
