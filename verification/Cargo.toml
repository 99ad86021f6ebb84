[package]
name = "pullcaps"
version = "0.1.0"
edition = "2021"
publish = false

[dependencies]
async-stream = "0.3"
chrono = { version = "0.4", features = ["serde"] }
futures = "0.3"
governor = "*"
once_cell = "1"
reqwest = { version = "0.11", features = ["json"] }
serde = { version = "1", features = ["derive"] }
