[package]
name = "http2amcp"
version = "0.1.0"
edition = "2021"
publish = false

[dependencies]
actix-web = { version = "4", default-features = false, features = ["macros"] }
clap = { version = "4", features = ["derive", "env"] }
dotenv = "0.15"
env_logger = "0.11"
lazy_static = "1"
log = "0.4"
telnet = "0.2"
