[package]
name = "pets_service"
version = "0.1.0"
edition = "2021"
publish = false

[dependencies]
actix-web = { version = "4", default-features = false, features = ["macros"] }
derive_more = "0.99"
dotenvy = "0.15"
log = "0.4"
mysql = "*"
serde = { version = "1", features = ["derive"] }
