[package]
name = "datafusion_spatial"
version = "0.1.0"
edition = "2021"
publish = false

[dependencies]
datafusion = { version = "=43.0.0", default-features = false, features = ["parquet"] }
geoarrow = { version = "=0.4.0-beta.1", features = ["parquet"] }
geo = "=0.28.0"
geo-traits = "=0.1.1"
serde_json = "=1.0.154"
tokio = { version = "=1.54.1", features = ["macros", "rt-multi-thread"] }
