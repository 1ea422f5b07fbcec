[package]
name = "statline"
version = "0.1.0"
edition = "2021"
publish = false

[dependencies]
clap = { version = "4", features = ["derive"] }
comfy-table = "7"
plotters = "0.3"
polars = { version = "0.46", features = ["lazy", "csv", "parquet", "cov", "dtype-i8", "dtype-i16", "dtype-u8", "dtype-u16"] }
serde = { version = "1", features = ["derive"] }
serde_json = "1"
thiserror = "2"
