[package]
name = "zigistry"
version = "0.1.0"
edition = "2021"
publish = false

[dependencies]
regex = "*"
keyword_extraction = "*"
stop-words = "*"
reqwest = { version = "*", features = ["json"] }
tokio = { version = "*", features = ["macros", "rt-multi-thread", "time"] }
serde = { version = "*", features = ["derive"] }
serde_json = "*"
serde_with = "*"
libsql = "*"
chrono = "*"
futures = "*"
toml = "*"
dotenv = "*"
lazy_static = "*"
pyo3 = "*"
