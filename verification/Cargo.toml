[package]
name = "glit_core"
version = "0.1.0"
edition = "2021"
publish = false

[dependencies]
scraper = "*"
reqwest = { version = "*", default-features = false }
tokio = { version = "*", features = ["rt-multi-thread", "macros"] }
futures = "*"
serde = { version = "*", features = ["derive"] }
colored = "*"
