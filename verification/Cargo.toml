[package]
name = "fish_tank"
version = "0.1.0"
edition = "2021"
publish = false

[dependencies]
secret-cosmwasm-std = { version = "*", features = ["random"] }
secret-toolkit = { version = "*", default-features = false, features = ["storage"] }
schemars = "0.8"
serde = { version = "1", default-features = false, features = ["derive"] }
