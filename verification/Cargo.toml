[package]
name = "aqt_stock"
version = "0.1.0"
edition = "2021"
publish = false

[dependencies]
longport = "*"
tokio = { version = "*", features = ["rt-multi-thread", "macros", "sync", "time"] }
time = { version = "*", features = ["macros"] }
serde = { version = "*", features = ["derive"] }
serde_json = "*"
serde_yaml = "*"
moka = { version = "*", features = ["sync"] }
once_cell = "*"
reqwest = { version = "*", default-features = false, features = ["rustls-tls"] }
log = "*"
log4rs = "*"
env_logger = "*"
dotenv = "*"
