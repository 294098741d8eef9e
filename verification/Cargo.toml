[package]
name = "cryo_freeze"
version = "0.1.0"
edition = "2021"
publish = false

[dependencies]
async-trait = "0.1"
polars = { version = "*", default-features = false, features = ["parquet"] }
prefix-hex = "0.7"
tokio = { version = "1", features = ["macros", "rt", "sync"] }
