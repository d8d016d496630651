[package]
name = "eruo_strutil"
version = "0.1.0"
edition = "2021"
publish = false

[dependencies]
polars = { version = "*", default-features = false }
pyo3-polars = { version = "*", features = ["derive"] }
rand = "0.9"
serde = { version = "1", features = ["derive"] }
