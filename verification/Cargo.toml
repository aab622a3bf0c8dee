[package]
name = "parse_to_parquet"
version = "0.1.0"
edition = "2021"
publish = false

[dependencies]
anyhow = "*"
calamine = "*"
clap = { version = "*", features = ["derive"] }
notify = "*"
polars = { version = "*", features = ["csv", "json", "parquet"] }
quick-xml = "*"
serde = { version = "*", features = ["derive"] }
toml = "*"
walkdir = "*"
