[package]
name = "ouja_skins"
version = "0.1.0"
edition = "2021"
publish = false

[dependencies]
magic-crypt = "*"
tree_magic = "*"
imagesize = "*"
uuid = { version = "*", features = ["v4"] }
serde = { version = "*", features = ["derive"] }
serde_json = "*"
actix-web = "*"
actix-multipart = "*"
actix-cors = "*"
futures-util = "*"
dotenvy = "*"
env_logger = "*"
