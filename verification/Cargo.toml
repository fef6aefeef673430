[package]
name = "nature"
version = "0.1.0"
edition = "2021"
publish = false

[dependencies]
actix-web = "4"
diesel = { version = "1.4", default-features = false }
serde = { version = "1", features = ["derive"] }
